//! Numbers written as text are read back.

use vstd::arithmetic::power::pow;
use vstd::prelude::*;

use crate::text::{decimal, hex16, hex_digit, signed_decimal};

verus! {

/// What a digit stands for, the letters from `a` on for ten and more.
pub open spec fn digit_value(c: u8) -> int {
    if c >= 97 {
        c - 97 + 10
    } else {
        c - 48
    }
}

/// The number that digits stand for, the highest first.
pub open spec fn read_number(s: Seq<u8>, base: int) -> int
    decreases s.len(),
{
    if s.len() == 0 {
        0
    } else {
        read_number(s.drop_last(), base) * base + digit_value(s.last())
    }
}

/// A digit or a small letter up to `f`.
pub open spec fn is_hex(c: u8) -> bool {
    48 <= c <= 57 || 97 <= c <= 102
}

/// Digits to the base sixteen are as many as asked, and stand for the number where it fits.
pub proof fn hex_reads_back(v: nat, digits: nat)
    requires
        v < pow(16, digits),
    ensures
        hex16(v, digits).len() == digits,
        read_number(hex16(v, digits), 16) == v,
        forall|i: int| 0 <= i < digits ==> is_hex(#[trigger] hex16(v, digits)[i]),
    decreases digits,
{
    reveal_with_fuel(pow, 2);
    if digits > 0 {
        let rest = (digits - 1) as nat;
        let head = hex16(v / 16, rest);
        assert(v / 16 < pow(16, rest)) by (nonlinear_arith)
            requires
                v < 16 * pow(16, rest),
        ;
        hex_reads_back(v / 16, rest);
        let s = hex16(v, digits);
        assert(s.drop_last() =~= head);
        assert(digit_value(hex_digit((v % 16) as int)) == v % 16);
        assert forall|i: int| 0 <= i < digits implies is_hex(#[trigger] s[i]) by {
            if i < rest {
                assert(s[i] == head[i]);
            }
        }
    }
}

/// Decimal digits stand for the number, with no zero in front.
pub proof fn decimal_reads_back(n: nat)
    ensures
        read_number(decimal(n), 10) == n,
        decimal(n).len() >= 1,
        decimal(n)[0] == 48 ==> n == 0 && decimal(n).len() == 1,
        forall|i: int| 0 <= i < decimal(n).len() ==> 48 <= #[trigger] decimal(n)[i] <= 57,
    decreases n,
{
    crate::text::lemma_decimal_digits(n);
    let s = decimal(n);
    if n < 10 {
        assert(s.drop_last() =~= Seq::<u8>::empty());
        assert(read_number(s.drop_last(), 10) == 0);
    } else {
        decimal_reads_back(n / 10);
        assert(s.drop_last() =~= decimal(n / 10));
        assert(s[0] == decimal(n / 10)[0]);
    }
}

/// A sign stands in front of a negative number and of no other.
pub proof fn signed_reads_back(n: int)
    ensures
        n >= 0 ==> read_number(signed_decimal(n), 10) == n,
        n < 0 ==> signed_decimal(n)[0] == 45 && read_number(signed_decimal(n).skip(1), 10) == -n,
{
    if n < 0 {
        decimal_reads_back((-n) as nat);
        assert(signed_decimal(n).skip(1) =~= decimal((-n) as nat));
    } else {
        decimal_reads_back(n as nat);
    }
}

} // verus!
