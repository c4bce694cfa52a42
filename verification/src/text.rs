//! Numbers and messages as text.

use vstd::prelude::*;

verus! {

/// The character that stands for the digit `d` in bases up to sixteen.
pub open spec fn digit(d: nat) -> char
    recommends
        d < 16,
{
    seq!['0', '1', '2', '3', '4', '5', '6', '7', '8', '9', 'a', 'b', 'c', 'd', 'e', 'f'][d as int]
}

/// The digits of `n` in the given base, most significant first, without
/// leading zeros; zero is the single digit `0`.
pub open spec fn digits(n: nat, base: nat) -> Seq<char>
    decreases n,
    when base >= 2
    via digits_decreases
{
    if n < base {
        seq![digit(n)]
    } else {
        digits(n / base, base).push(digit(n % base))
    }
}

#[via_fn]
proof fn digits_decreases(n: nat, base: nat) {
    if n >= base {
        lemma_quotient_is_smaller(n, base);
    }
}

proof fn lemma_quotient_is_smaller(n: nat, base: nat)
    by (nonlinear_arith)
    requires
        base >= 2,
        n >= base,
    ensures
        n / base < n,
        n / base >= 1,
        n % base < base,
{
}

/// The number that a digit character stands for; [`digit`] read backwards.
pub open spec fn digit_value(c: char) -> nat {
    if c == '0' {
        0
    } else if c == '1' {
        1
    } else if c == '2' {
        2
    } else if c == '3' {
        3
    } else if c == '4' {
        4
    } else if c == '5' {
        5
    } else if c == '6' {
        6
    } else if c == '7' {
        7
    } else if c == '8' {
        8
    } else if c == '9' {
        9
    } else if c == 'a' {
        10
    } else if c == 'b' {
        11
    } else if c == 'c' {
        12
    } else if c == 'd' {
        13
    } else if c == 'e' {
        14
    } else {
        15
    }
}

/// The number that the digits denote in the given base.
pub open spec fn number(text: Seq<char>, base: nat) -> nat
    decreases text.len(),
{
    if text.len() == 0 {
        0
    } else {
        number(text.drop_last(), base) * base + digit_value(text.last())
    }
}

/// The digits of a number denote that number: read in the same base they
/// give it back. There is at least one digit, each is a digit of the base,
/// and the first is a zero for the number zero only.
pub proof fn lemma_digits_denote(n: nat, base: nat)
    requires
        2 <= base <= 16,
    ensures
        number(digits(n, base), base) == n,
        digits(n, base).len() >= 1,
        forall|i: int|
            0 <= i < digits(n, base).len() ==> digit_value(#[trigger] digits(n, base)[i]) < base,
        n > 0 ==> digit_value(digits(n, base)[0]) > 0,
    decreases n,
{
    let text = digits(n, base);
    if n < base {
        assert(number(text.drop_last(), base) == 0);
    } else {
        let high = n / base;
        let low = n % base;
        lemma_quotient_is_smaller(n, base);
        lemma_digits_denote(high, base);
        assert(text.drop_last() =~= digits(high, base));
        assert(high * base + low == n) by (nonlinear_arith)
            requires
                base > 0,
                high == n / base,
                low == n % base,
        ;
    }
}

/// `n` in decimal.
pub open spec fn decimal(n: nat) -> Seq<char> {
    digits(n, 10)
}

/// `n` in lower-case hexadecimal behind the prefix `0x`.
pub open spec fn hexadecimal(n: nat) -> Seq<char> {
    "0x"@ + digits(n, 16)
}

/// What is reported when the operating system refuses to unmap
/// `length` bytes at `address` and describes its refusal as `diagnostic`.
pub open spec fn unmap_failure(address: nat, length: nat, diagnostic: Seq<char>) -> Seq<char> {
    "munmap("@ + hexadecimal(address) + ", "@ + decimal(length) + "): "@ + diagnostic
}

/// How a region of `length` bytes at `address` is shown.
pub open spec fn region_text(address: nat, length: nat) -> Seq<char> {
    "MappedRegion{"@ + hexadecimal(address) + ", "@ + decimal(length) + "}"@
}

fn digit_char(d: usize) -> (c: char)
    requires
        d < 16,
    ensures
        c == digit(d as nat),
{
    match d {
        0 => '0',
        1 => '1',
        2 => '2',
        3 => '3',
        4 => '4',
        5 => '5',
        6 => '6',
        7 => '7',
        8 => '8',
        9 => '9',
        10 => 'a',
        11 => 'b',
        12 => 'c',
        13 => 'd',
        14 => 'e',
        _ => 'f',
    }
}

/// Appends the digits of `n` in the given base to `out`.
pub fn push_digits(out: &mut String, n: usize, base: usize)
    requires
        2 <= base <= 16,
    ensures
        final(out)@ == old(out)@ + digits(n as nat, base as nat),
    decreases n,
{
    if n >= base {
        proof {
            lemma_quotient_is_smaller(n as nat, base as nat);
        }
        push_digits(out, n / base, base);
        out.push(digit_char(n % base));
    } else {
        out.push(digit_char(n));
    }
}

/// Appends `n` in decimal to `out`.
pub fn push_decimal(out: &mut String, n: usize)
    ensures
        final(out)@ == old(out)@ + decimal(n as nat),
{
    push_digits(out, n, 10);
}

/// Appends `n` in hexadecimal, behind `0x`, to `out`.
pub fn push_hexadecimal(out: &mut String, n: usize)
    ensures
        final(out)@ == old(out)@ + hexadecimal(n as nat),
{
    out.append("0x");
    push_digits(out, n, 16);
}

/// The report of a refused unmap; see [`unmap_failure`].
pub fn unmap_failure_message(address: usize, length: usize, diagnostic: &str) -> (message: String)
    ensures
        message@ == unmap_failure(address as nat, length as nat, diagnostic@),
{
    let mut message = String::new();
    message.append("munmap(");
    push_hexadecimal(&mut message, address);
    message.append(", ");
    push_decimal(&mut message, length);
    message.append("): ");
    message.append(diagnostic);
    message
}

} // verus!
