//! Text building blocks: digits of numbers in a radix, zero padding and
//! signed decimals, with the strings they produce stated as sequences of
//! characters.
use vstd::prelude::*;

verus! {

/// The digit character for `d` (0 to 15), in lower or upper case.
pub open spec fn digit_char(d: nat, upper: bool) -> char {
    if d == 0 { '0' }
    else if d == 1 { '1' }
    else if d == 2 { '2' }
    else if d == 3 { '3' }
    else if d == 4 { '4' }
    else if d == 5 { '5' }
    else if d == 6 { '6' }
    else if d == 7 { '7' }
    else if d == 8 { '8' }
    else if d == 9 { '9' }
    else if d == 10 { if upper { 'A' } else { 'a' } }
    else if d == 11 { if upper { 'B' } else { 'b' } }
    else if d == 12 { if upper { 'C' } else { 'c' } }
    else if d == 13 { if upper { 'D' } else { 'd' } }
    else if d == 14 { if upper { 'E' } else { 'e' } }
    else { if upper { 'F' } else { 'f' } }
}

/// The digits of `n` written in `base`, most significant first, without
/// leading zeros (zero itself is the single digit `0`).
pub open spec fn radix_digits(n: nat, base: nat, upper: bool) -> Seq<char>
    decreases n,
{
    if base < 2 || n < base {
        seq![digit_char(n, upper)]
    } else {
        proof {
            lemma_div_decreases(n, base);
        }
        radix_digits(n / base, base, upper).push(digit_char(n % base, upper))
    }
}

/// Dividing by a base of at least 2 makes a number of at least that base smaller.
pub proof fn lemma_div_decreases(n: nat, base: nat)
    requires
        base >= 2,
        n >= base,
    ensures
        n / base < n,
{
    assert(n / base < n) by (nonlinear_arith)
        requires
            base >= 2,
            n >= base,
    ;
}

/// `s` padded on the left with `0` characters up to `width` characters.
pub open spec fn zero_pad(s: Seq<char>, width: nat) -> Seq<char> {
    if s.len() >= width {
        s
    } else {
        Seq::new((width - s.len()) as nat, |_i: int| '0') + s
    }
}

/// The decimal form of `n`, with a leading `-` when it is negative.
pub open spec fn decimal(n: int) -> Seq<char> {
    if n < 0 {
        seq!['-'] + radix_digits((-n) as nat, 10, false)
    } else {
        radix_digits(n as nat, 10, false)
    }
}

/// The decimal form of `n` that always shows its sign (`+` or `-`).
pub open spec fn signed_decimal(n: int) -> Seq<char> {
    if n < 0 {
        decimal(n)
    } else {
        seq!['+'] + decimal(n)
    }
}

/// Appends one character to a string: calls `String::push`, whose contract
/// here claims that the string's characters afterwards are the old ones
/// followed by `c`.
#[verifier::external_body]
pub(crate) fn push_char(s: &mut String, c: char)
    ensures
        final(s)@ == old(s)@.push(c),
{
    s.push(c);
}

fn digit(d: u64, upper: bool) -> (c: char)
    requires
        d < 16,
    ensures
        c == digit_char(d as nat, upper),
{
    if d == 0 { '0' }
    else if d == 1 { '1' }
    else if d == 2 { '2' }
    else if d == 3 { '3' }
    else if d == 4 { '4' }
    else if d == 5 { '5' }
    else if d == 6 { '6' }
    else if d == 7 { '7' }
    else if d == 8 { '8' }
    else if d == 9 { '9' }
    else if d == 10 { if upper { 'A' } else { 'a' } }
    else if d == 11 { if upper { 'B' } else { 'b' } }
    else if d == 12 { if upper { 'C' } else { 'c' } }
    else if d == 13 { if upper { 'D' } else { 'd' } }
    else if d == 14 { if upper { 'E' } else { 'e' } }
    else { if upper { 'F' } else { 'f' } }
}

/// Appends the digits of `n` in `base` (2 to 16).
pub fn push_digits(s: &mut String, n: u64, base: u64, upper: bool)
    requires
        2 <= base <= 16,
    ensures
        final(s)@ == old(s)@ + radix_digits(n as nat, base as nat, upper),
    decreases n,
{
    if n < base {
        push_char(s, digit(n, upper));
        assert(radix_digits(n as nat, base as nat, upper) == seq![digit_char(n as nat, upper)]);
    } else {
        let ghost s0 = s@;
        proof {
            lemma_div_decreases(n as nat, base as nat);
        }
        push_digits(s, n / base, base, upper);
        push_char(s, digit(n % base, upper));
        let ghost rest = radix_digits((n / base) as nat, base as nat, upper);
        assert(s@ =~= s0 + rest.push(digit_char((n % base) as nat, upper)));
    }
}

/// Appends the digits of `n` in `base`, padded with `0` to at least `width`
/// characters.
pub fn push_padded(s: &mut String, n: u64, base: u64, upper: bool, width: usize)
    requires
        2 <= base <= 16,
    ensures
        final(s)@ == old(s)@ + zero_pad(radix_digits(n as nat, base as nat, upper), width as nat),
{
    let mut digits = String::new();
    push_digits(&mut digits, n, base, upper);
    let ghost ds = radix_digits(n as nat, base as nat, upper);
    assert(digits@ =~= ds);
    let len = digits.as_str().unicode_len();
    let ghost s0 = s@;
    if len < width {
        let pad = width - len;
        let mut i: usize = 0;
        while i < pad
            invariant
                i <= pad,
                pad == width - len,
                len == ds.len(),
                s@ =~= s0 + Seq::new(i as nat, |_i: int| '0'),
            decreases pad - i,
        {
            push_char(s, '0');
            i = i + 1;
        }
    }
    s.append(digits.as_str());
    assert(s@ =~= s0 + zero_pad(ds, width as nat));
}

/// Appends the decimal form of `n`.
pub fn push_decimal(s: &mut String, n: i64)
    requires
        n > i64::MIN,
    ensures
        final(s)@ == old(s)@ + decimal(n as int),
{
    let ghost s0 = s@;
    if n < 0 {
        push_char(s, '-');
        let m: u64 = (-n) as u64;
        push_digits(s, m, 10, false);
        assert(s@ =~= s0 + decimal(n as int));
    } else {
        push_digits(s, n as u64, 10, false);
    }
}

/// Appends the decimal form of `n` with its sign always shown.
pub fn push_signed_decimal(s: &mut String, n: i64)
    requires
        n > i64::MIN,
    ensures
        final(s)@ == old(s)@ + signed_decimal(n as int),
{
    let ghost s0 = s@;
    if n >= 0 {
        push_char(s, '+');
    }
    push_decimal(s, n);
    assert(s@ =~= s0 + signed_decimal(n as int));
}

} // verus!
