//! Decimal number text as `str::parse::<f64>` reads it (digits, an optional
//! point and an optional exponent), and the whole hundredths of a gigabyte
//! that such a number of bytes makes.
use vstd::prelude::*;
use crate::text::{all_digits, digit_value, digits_value, is_digit, lemma_digits_value_prefix, sub_chars};

verus! {

pub open spec fn is_exp_mark(c: char) -> bool {
    c == 'e' || c == 'E'
}

/// Where the first `e` or `E` stands, or the length when there is none.
pub open spec fn exp_mark_at(s: Seq<char>) -> int
    decreases s.len(),
{
    if s.len() == 0 {
        0
    } else if is_exp_mark(s[0]) {
        0
    } else {
        1 + exp_mark_at(s.drop_first())
    }
}

/// Where the first `.` stands, or the length when there is none.
pub open spec fn dot_at(s: Seq<char>) -> int
    decreases s.len(),
{
    if s.len() == 0 {
        0
    } else if s[0] == '.' {
        0
    } else {
        1 + dot_at(s.drop_first())
    }
}

/// The exponent written after the `e`: an optional sign, then digits.
pub open spec fn signed_exponent(e: Seq<char>) -> Option<int> {
    let negative = e.len() > 0 && e[0] == '-';
    let digits = if e.len() > 0 && (e[0] == '+' || e[0] == '-') {
        e.drop_first()
    } else {
        e
    };
    if digits.len() > 0 && all_digits(digits) {
        Some(
            if negative {
                -(digits_value(digits) as int)
            } else {
                digits_value(digits) as int
            },
        )
    } else {
        None
    }
}

/// A number that is not negative, as `str::parse::<f64>` reads its text: an
/// optional `+`, digits with at most one point among them (at least one
/// digit in all), and an optional exponent (`e` or `E`, an optional sign,
/// digits). The result is the number's digits, and the position of its
/// point among them once the exponent is applied. Texts with a `-` sign,
/// `inf` and `NaN` are not among these.
pub open spec fn decimal_number(s: Seq<char>) -> Option<(Seq<char>, int)> {
    let body = if s.len() > 0 && s[0] == '+' {
        s.drop_first()
    } else {
        s
    };
    let k = exp_mark_at(body);
    let mant = body.take(k);
    let d = dot_at(mant);
    let whole = mant.take(d);
    let frac = if d < mant.len() {
        mant.skip(d + 1)
    } else {
        Seq::<char>::empty()
    };
    let exp = if k < body.len() {
        signed_exponent(body.skip(k + 1))
    } else {
        Some(0int)
    };
    if all_digits(whole) && all_digits(frac) && whole.len() + frac.len() > 0 && exp is Some {
        Some((whole + frac, whole.len() + exp->Some_0))
    } else {
        None
    }
}

/// The first `n` digits of `d`, with zeros after its end.
pub open spec fn padded_digits(d: Seq<char>, n: nat) -> Seq<char> {
    Seq::new(n, |i: int| if i < d.len() { d[i] } else { '0' })
}

/// The whole part of a hundred times the number whose digits are `d`, with
/// its point after the first `point` of them: the digits that stand before
/// the point once it moves two places to the right.
pub open spec fn hundredfold(d: Seq<char>, point: int) -> nat {
    if point + 2 <= 0 {
        0
    } else {
        digits_value(padded_digits(d, (point + 2) as nat))
    }
}

/// Bytes written as `raw`, in hundredths of a gigabyte (2^30 bytes) rounded
/// to the nearest, halves up: 0 where `raw` is no such number, or the amount
/// does not fit in `u64`.
pub open spec fn centigb_of_byte_text(raw: Seq<char>) -> nat {
    match decimal_number(raw) {
        Some((d, point)) => {
            let c = (hundredfold(d, point) + 536870912) / 1073741824;
            if c <= u64::MAX {
                c
            } else {
                0
            }
        },
        None => 0,
    }
}

pub open spec fn pow10(n: nat) -> nat
    decreases n,
{
    if n == 0 {
        1
    } else {
        10 * pow10((n - 1) as nat)
    }
}

proof fn lemma_zero_digits(s: Seq<char>)
    requires
        forall|i: int| 0 <= i < s.len() ==> #[trigger] s[i] == '0',
    ensures
        digits_value(s) == 0,
    decreases s.len(),
{
    if s.len() > 0 {
        lemma_zero_digits(s.drop_last());
    }
}

proof fn lemma_nonzero_digits(s: Seq<char>, j: int)
    requires
        all_digits(s),
        0 <= j < s.len(),
        s[j] != '0',
    ensures
        digits_value(s) >= 1,
    decreases s.len(),
{
    if j < s.len() - 1 {
        assert(all_digits(s.drop_last()));
        lemma_nonzero_digits(s.drop_last(), j);
    }
}

proof fn lemma_padded_zeros(d: Seq<char>, j: nat)
    ensures
        digits_value(padded_digits(d, d.len() + j)) == digits_value(d) * pow10(j),
    decreases j,
{
    if j == 0 {
        assert(padded_digits(d, d.len()) =~= d);
        assert(pow10(0) == 1);
    } else {
        lemma_padded_zeros(d, (j - 1) as nat);
        let full = padded_digits(d, d.len() + j);
        assert(full.drop_last() =~= padded_digits(d, d.len() + (j - 1) as nat));
        assert(full.last() == '0');
        assert(digit_value('0') == 0);
        let v = digits_value(d);
        let q = pow10((j - 1) as nat);
        assert(digits_value(full.drop_last()) == v * q);
        assert(digits_value(full) == digits_value(full.drop_last()) * 10 + digit_value(full.last()));
        assert(digits_value(full) == v * q * 10);
        assert(pow10(j) == 10 * q);
        assert(v * q * 10 == v * (10 * q)) by (nonlinear_arith);
        assert(digits_value(full) == v * pow10(j));
    }
}

proof fn lemma_padded_prefix(d: Seq<char>, m: nat, n: nat)
    requires
        all_digits(d),
        m <= n,
    ensures
        digits_value(padded_digits(d, m)) <= digits_value(padded_digits(d, n)),
{
    let full = padded_digits(d, n);
    assert(all_digits(full));
    assert(full.take(m as int) =~= padded_digits(d, m));
    lemma_digits_value_prefix(full, m as int);
}

/// Where the first `e` or `E` of `s` stands.
fn exp_mark_index(s: &Vec<char>) -> (k: usize)
    ensures
        k == exp_mark_at(s@),
        k <= s.len(),
{
    let mut i: usize = 0;
    assert(s@.skip(0) =~= s@);
    while i < s.len() && !(s[i] == 'e' || s[i] == 'E')
        invariant
            i <= s.len(),
            exp_mark_at(s@) == i + exp_mark_at(s@.skip(i as int)),
        decreases s.len() - i,
    {
        assert(s@.skip(i as int).drop_first() =~= s@.skip(i + 1));
        i = i + 1;
    }
    if i < s.len() {
        assert(s@.skip(i as int)[0] == s@[i as int]);
    }
    i
}

/// Where the first `.` of `s` stands.
fn dot_index(s: &Vec<char>) -> (k: usize)
    ensures
        k == dot_at(s@),
        k <= s.len(),
{
    let mut i: usize = 0;
    assert(s@.skip(0) =~= s@);
    while i < s.len() && s[i] != '.'
        invariant
            i <= s.len(),
            dot_at(s@) == i + dot_at(s@.skip(i as int)),
        decreases s.len() - i,
    {
        assert(s@.skip(i as int).drop_first() =~= s@.skip(i + 1));
        i = i + 1;
    }
    if i < s.len() {
        assert(s@.skip(i as int)[0] == s@[i as int]);
    }
    i
}

fn all_digits_vec(s: &Vec<char>) -> (b: bool)
    ensures
        b == all_digits(s@),
{
    let mut i: usize = 0;
    while i < s.len()
        invariant
            i <= s.len(),
            forall|k: int| 0 <= k < i ==> is_digit(s@[k]),
        decreases s.len() - i,
    {
        if !(s[i] >= '0' && s[i] <= '9') {
            assert(!is_digit(s@[i as int]));
            return false;
        }
        i = i + 1;
    }
    true
}

/// The exponent written after the `e`, kept within `cap + 1` either way:
/// exact where it lies within `cap`, else `cap + 1` or `-(cap + 1)` by its
/// sign.
fn bounded_exponent(e: &Vec<char>, cap: u128) -> (r: Option<i128>)
    requires
        cap < 0x1_0000_0000_0000_0000_0000,
    ensures
        match r {
            None => signed_exponent(e@) is None,
            Some(x) => {
                &&& signed_exponent(e@) is Some
                &&& -(cap + 1) <= x <= cap + 1
                &&& -cap <= x <= cap ==> signed_exponent(e@)->Some_0 == x
                &&& x == cap + 1 ==> signed_exponent(e@)->Some_0 > cap
                &&& x == -(cap + 1) ==> signed_exponent(e@)->Some_0 < -cap
            },
        },
{
    let negative = e.len() > 0 && e[0] == '-';
    let from: usize = if e.len() > 0 && (e[0] == '+' || e[0] == '-') {
        1
    } else {
        0
    };
    let digits = sub_chars(e, from, e.len());
    if from == 1 {
        assert(digits@ =~= e@.drop_first());
    } else {
        assert(digits@ =~= e@);
    }
    if digits.len() == 0 || !all_digits_vec(&digits) {
        return None;
    }
    let mut m: u128 = 0;
    let mut i: usize = 0;
    assert(digits@.take(0) =~= Seq::<char>::empty());
    assert(signed_exponent(e@) == Some(
        if negative {
            -(digits_value(digits@) as int)
        } else {
            digits_value(digits@) as int
        },
    ));
    while i < digits.len()
        invariant
            i <= digits.len(),
            all_digits(digits@),
            signed_exponent(e@) == Some(
                if negative {
                    -(digits_value(digits@) as int)
                } else {
                    digits_value(digits@) as int
                },
            ),
            m == digits_value(digits@.take(i as int)),
            m <= cap,
            cap < 0x1_0000_0000_0000_0000_0000,
        decreases digits.len() - i,
    {
        assert(is_digit(digits@[i as int]));
        let d = (digits[i] as u32 - '0' as u32) as u128;
        assert(digits@.take(i + 1).drop_last() =~= digits@.take(i as int));
        assert(digits@.take(i + 1).last() == digits@[i as int]);
        assert(digits_value(digits@.take(i + 1)) == m * 10 + d);
        let next = m * 10 + d;
        if next > cap {
            proof {
                lemma_digits_value_prefix(digits@, i + 1);
            }
            let c = cap as i128 + 1;
            if negative {
                return Some(-c);
            } else {
                return Some(c);
            }
        }
        m = next;
        i = i + 1;
    }
    assert(digits@.take(digits.len() as int) =~= digits@);
    if negative {
        Some(-(m as i128))
    } else {
        Some(m as i128)
    }
}

/// `x` brought within `lo..=hi`.
pub open spec fn clamp(x: int, lo: int, hi: int) -> int {
    if x < lo {
        lo
    } else if x > hi {
        hi
    } else {
        x
    }
}

/// A number `hundredfold` puts beyond what `u64` hundredths hold, unless its
/// digits are all zeros: its point stands 38 or more places past its digits.
proof fn lemma_far_point(d: Seq<char>, point: int)
    requires
        all_digits(d),
        point >= d.len() + 38,
    ensures
        hundredfold(d, point) == 0 || (hundredfold(d, point) + 536870912) / 1073741824 > u64::MAX,
{
    let n = (point + 2) as nat;
    if exists|i: int| 0 <= i < d.len() && d[i] != '0' {
        let i = choose|i: int| 0 <= i < d.len() && d[i] != '0';
        lemma_nonzero_digits(d, i);
        lemma_padded_zeros(d, 40);
        lemma_padded_prefix(d, d.len() + 40, n);
        reveal_with_fuel(pow10, 41);
        let v = digits_value(d);
        assert(v * pow10(40) >= pow10(40)) by (nonlinear_arith)
            requires
                v >= 1,
        ;
        let h = hundredfold(d, point);
        assert(h >= 0x3fff_ffff_ffff_ffff_e000_0000);
        assert((h + 536870912) / 1073741824 > u64::MAX) by (nonlinear_arith)
            requires
                h >= 0x3fff_ffff_ffff_ffff_e000_0000,
        ;
    } else {
        assert forall|k: int| 0 <= k < n implies #[trigger] padded_digits(d, n)[k] == '0' by {
            if k < d.len() {
                assert(is_digit(d[k]));
            }
        }
        lemma_zero_digits(padded_digits(d, n));
    }
}

/// The digits of the number that `raw` writes, and the place of its point
/// among them, brought within `-2..=digits.len() + 40`.
fn decimal_parts(raw: &Vec<char>) -> (r: Option<(Vec<char>, i128)>)
    ensures
        match r {
            None => decimal_number(raw@) is None,
            Some((digits, p)) => {
                &&& decimal_number(raw@) is Some
                &&& decimal_number(raw@)->Some_0.0 == digits@
                &&& p == clamp(decimal_number(raw@)->Some_0.1, -2, digits@.len() + 40int)
                &&& all_digits(digits@)
            },
        },
{
    let start: usize = if raw.len() > 0 && raw[0] == '+' {
        1
    } else {
        0
    };
    let body = sub_chars(raw, start, raw.len());
    if start == 1 {
        assert(body@ =~= raw@.drop_first());
    } else {
        assert(body@ =~= raw@);
    }
    let k = exp_mark_index(&body);
    let mant = sub_chars(&body, 0, k);
    assert(mant@ =~= body@.take(k as int));
    let d = dot_index(&mant);
    let whole = sub_chars(&mant, 0, d);
    assert(whole@ =~= mant@.take(d as int));
    let frac = if d < mant.len() {
        let f = sub_chars(&mant, d + 1, mant.len());
        assert(f@ =~= mant@.skip(d + 1));
        f
    } else {
        Vec::new()
    };
    if !all_digits_vec(&whole) || !all_digits_vec(&frac) || whole.len() + frac.len() == 0 {
        return None;
    }
    let cap: u128 = body.len() as u128 + 40;
    let exponent: i128 = if k < body.len() {
        let e = sub_chars(&body, k + 1, body.len());
        assert(e@ =~= body@.skip(k + 1));
        match bounded_exponent(&e, cap) {
            Some(x) => x,
            None => return None,
        }
    } else {
        0
    };
    let ghost spec_exp: int = if k < body.len() {
        signed_exponent(body@.skip(k + 1))->Some_0
    } else {
        0
    };
    let mut digits = copy_vec(&whole);
    let mut j: usize = 0;
    while j < frac.len()
        invariant
            j <= frac.len(),
            digits@ == whole@ + frac@.take(j as int),
        decreases frac.len() - j,
    {
        digits.push(frac[j]);
        assert(frac@.take(j + 1) =~= frac@.take(j as int).push(frac@[j as int]));
        j = j + 1;
    }
    assert(frac@.take(frac.len() as int) =~= frac@);
    assert(decimal_number(raw@) == Some((digits@, whole.len() + spec_exp)));
    assert(all_digits(digits@)) by {
        assert forall|i: int| 0 <= i < digits@.len() implies is_digit(#[trigger] digits@[i]) by {
            if i < whole.len() {
                assert(digits@[i] == whole@[i]);
            } else {
                assert(digits@[i] == frac@[i - whole.len()]);
            }
        }
    }
    assert(digits.len() <= body.len());
    let q: i128 = whole.len() as i128 + exponent;
    let hi: i128 = digits.len() as i128 + 40;
    let p: i128 = if q < -2 {
        -2
    } else if q > hi {
        hi
    } else {
        q
    };
    Some((digits, p))
}

/// `centigb_of_byte_text(raw)`, computed.
pub fn centigb_from_byte_text(raw: &Vec<char>) -> (c: u64)
    ensures
        c == centigb_of_byte_text(raw@),
{
    let (digits, p) = match decimal_parts(raw) {
        Some(t) => t,
        None => return 0,
    };
    let ghost point: int = decimal_number(raw@)->Some_0.1;
    assert(decimal_number(raw@) == Some((digits@, point)));
    assert(centigb_of_byte_text(raw@) == {
        let c = (hundredfold(digits@, point) + 536870912) / 1073741824;
        if c <= u64::MAX {
            c
        } else {
            0
        }
    });
    if p <= -2 {
        assert(hundredfold(digits@, point) == 0);
        return 0;
    }
    if p >= digits.len() as i128 + 40 {
        proof {
            lemma_far_point(digits@, point);
        }
        return 0;
    }
    let n: i128 = p + 2;
    let mut acc: u128 = 0;
    let mut i: i128 = 0;
    assert(padded_digits(digits@, 0) =~= Seq::<char>::empty());
    while i < n
        invariant
            0 <= i <= n,
            n == point + 2,
            n <= digits.len() + 41,
            all_digits(digits@),
            centigb_of_byte_text(raw@) == {
                let c = (hundredfold(digits@, point) + 536870912) / 1073741824;
                if c <= u64::MAX {
                    c
                } else {
                    0
                }
            },
            hundredfold(digits@, point) == digits_value(padded_digits(digits@, n as nat)),
            acc == digits_value(padded_digits(digits@, i as nat)),
            acc < 0x3fff_ffff_ffff_ffff_e000_0000,
        decreases n - i,
    {
        let ch = if i < digits.len() as i128 {
            digits[i as usize]
        } else {
            '0'
        };
        assert(padded_digits(digits@, (i + 1) as nat).drop_last() =~= padded_digits(
            digits@,
            i as nat,
        ));
        assert(padded_digits(digits@, (i + 1) as nat).last() == ch);
        assert(is_digit(ch));
        let dv = (ch as u32 - '0' as u32) as u128;
        let next = acc * 10 + dv;
        assert(digits_value(padded_digits(digits@, (i + 1) as nat)) == next);
        if next >= 0x3fff_ffff_ffff_ffff_e000_0000 {
            proof {
                lemma_padded_prefix(digits@, (i + 1) as nat, n as nat);
                let h = hundredfold(digits@, point);
                assert((h + 536870912) / 1073741824 > u64::MAX) by (nonlinear_arith)
                    requires
                        h >= 0x3fff_ffff_ffff_ffff_e000_0000,
                ;
            }
            return 0;
        }
        acc = next;
        i = i + 1;
    }
    assert((acc + 536870912) / 1073741824 <= u64::MAX) by (nonlinear_arith)
        requires
            acc < 0x3fff_ffff_ffff_ffff_e000_0000,
    ;
    ((acc + 536870912) / 1073741824) as u64
}

fn copy_vec(v: &Vec<char>) -> (w: Vec<char>)
    ensures
        w@ == v@,
{
    sub_chars(v, 0, v.len())
}

} // verus!
