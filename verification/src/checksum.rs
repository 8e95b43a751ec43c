//! The weighted checksum over the first ten digits of an identifier.

use vstd::prelude::*;
use crate::digits::{all_digits, digit_val, is_digit_char};

verus! {

/// The fixed positional weights of the checksum.
pub open spec fn weights() -> Seq<int> {
    seq![1, 3, 7, 9, 1, 3, 7, 9, 1, 3]
}

/// The weighted sum of the first `n` digit characters of `s`.
pub open spec fn weighted_sum(s: Seq<char>, n: int) -> int
    decreases n,
{
    if n <= 0 {
        0
    } else {
        weighted_sum(s, n - 1) + digit_val(s[n - 1]) * weights()[n - 1]
    }
}

/// The checksum digit of a ten-digit string: zero when the weighted sum is
/// divisible by ten, else ten minus the sum's last digit.
pub open spec fn checksum_val(s: Seq<char>) -> int {
    if weighted_sum(s, 10) % 10 == 0 {
        0
    } else {
        10 - weighted_sum(s, 10) % 10
    }
}

/// The checksum digit is always in `0 ..= 9`.
pub proof fn lemma_checksum_in_range(s: Seq<char>)
    ensures
        0 <= checksum_val(s) <= 9,
{
}

/// Equal ten-digit strings have equal checksums: the checksum is a function
/// of the characters alone.
pub proof fn lemma_checksum_deterministic(s: Seq<char>, t: Seq<char>)
    requires
        s == t,
    ensures
        checksum_val(s) == checksum_val(t),
{
}

/// The weight at position `i` of the checksum.
fn weight_at(i: usize) -> (w: u32)
    requires
        i < 10,
    ensures
        w == weights()[i as int],
{
    if i == 0 || i == 4 || i == 8 {
        1
    } else if i == 1 || i == 5 || i == 9 {
        3
    } else if i == 2 || i == 6 {
        7
    } else {
        9
    }
}

/// The checksum digit of a ten-digit numeric string.
pub fn get_control_number(incomplete_pesel: String) -> (r: u32)
    requires
        incomplete_pesel@.len() == 10,
        all_digits(incomplete_pesel@),
    ensures
        r == checksum_val(incomplete_pesel@),
        r <= 9,
{
    let s = incomplete_pesel.as_str();
    let mut sum: u32 = 0;
    let mut i: usize = 0;
    while i < 10
        invariant
            0 <= i <= 10,
            s@ == incomplete_pesel@,
            s@.len() == 10,
            all_digits(s@),
            sum == weighted_sum(s@, i as int),
            sum <= 81 * i,
        decreases 10 - i,
    {
        let c = s.get_char(i);
        assert(is_digit_char(c));
        let d = (c as u32) - 48;
        let w = weight_at(i);
        assert(d * w <= 81) by (nonlinear_arith)
            requires
                d <= 9,
                w <= 9,
        ;
        sum = sum + d * w;
        i = i + 1;
    }
    if sum % 10 == 0 {
        0
    } else {
        10 - sum % 10
    }
}

} // verus!
