//! Small string-building helpers over `String`, specified on `Seq<char>`.
use vstd::prelude::*;

verus! {

/// The ASCII digit for `d` (taken modulo nothing: `d` must be below 10).
pub open spec fn digit_char(d: nat) -> char {
    if d == 0 { '0' }
    else if d == 1 { '1' }
    else if d == 2 { '2' }
    else if d == 3 { '3' }
    else if d == 4 { '4' }
    else if d == 5 { '5' }
    else if d == 6 { '6' }
    else if d == 7 { '7' }
    else if d == 8 { '8' }
    else { '9' }
}

/// Decimal representation of `n`, without sign or leading zeros.
pub open spec fn decimal(n: nat) -> Seq<char>
    decreases n,
{
    if n < 10 {
        seq![digit_char(n)]
    } else {
        decimal(n / 10).push(digit_char(n % 10))
    }
}

/// Decimal representation of `n` padded with zeros to at least two digits
/// (what `{:02}` prints).
pub open spec fn decimal_pad2(n: nat) -> Seq<char> {
    if n < 10 { seq!['0', digit_char(n)] } else { decimal(n) }
}

/// Appends `c` to `s` (`String::push`).
#[verifier::external_body]
pub(crate) fn push_char(s: &mut String, c: char)
    ensures
        final(s)@ == old(s)@.push(c),
{
    s.push(c);
}

pub fn digit(d: u64) -> (c: char)
    requires
        d < 10,
    ensures
        c == digit_char(d as nat),
{
    if d == 0 { '0' }
    else if d == 1 { '1' }
    else if d == 2 { '2' }
    else if d == 3 { '3' }
    else if d == 4 { '4' }
    else if d == 5 { '5' }
    else if d == 6 { '6' }
    else if d == 7 { '7' }
    else if d == 8 { '8' }
    else { '9' }
}

/// Appends the decimal representation of `n` to `s`.
pub fn push_decimal(s: &mut String, n: u64)
    ensures
        final(s)@ == old(s)@ + decimal(n as nat),
    decreases n,
{
    if n >= 10 {
        push_decimal(s, n / 10);
    }
    let c = digit(n % 10);
    push_char(s, c);
    assert(s@ =~= old(s)@ + decimal(n as nat));
}

/// Appends `n` to `s` zero-padded to two digits.
pub fn push_decimal_pad2(s: &mut String, n: u64)
    ensures
        final(s)@ == old(s)@ + decimal_pad2(n as nat),
{
    if n < 10 {
        push_char(s, '0');
        let c = digit(n);
        push_char(s, c);
        assert(s@ =~= old(s)@ + decimal_pad2(n as nat));
    } else {
        push_decimal(s, n);
    }
}

} // verus!
