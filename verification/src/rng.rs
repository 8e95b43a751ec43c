//! The random source: a trusted boundary around the process-local generator,
//! and a verified builder for strings of random digits.

use vstd::prelude::*;
use crate::digits::{all_digits, digit_str, is_digit_char};

verus! {

/// Relies on `rand::thread_rng` and `rand::Rng::gen_range` on a half-open
/// `i32` range: the sample lies in `[lo, hi)`; the call panics only on an
/// empty range, which the precondition rules out. Nothing is assumed about
/// which value comes back.
#[verifier::external_body]
pub(crate) fn rand_range(lo: i32, hi: i32) -> (r: i32)
    requires
        lo < hi,
    ensures
        lo <= r < hi,
{
    rand::Rng::gen_range(&mut rand::thread_rng(), lo..hi)
}

/// A string of `length` independently random decimal digit characters.
pub fn rng_digits(length: i32) -> (r: String)
    requires
        length >= 0,
    ensures
        r@.len() == length as int,
        all_digits(r@),
{
    let mut out = String::new();
    let mut i: i32 = 0;
    while i < length
        invariant
            0 <= i <= length,
            out@.len() == i as int,
            all_digits(out@),
        decreases length - i,
    {
        let d = rand_range(0, 10);
        let ghost prev = out@;
        out.append(digit_str(d as u8));
        proof {
            assert forall|j: int| 0 <= j < out@.len() implies is_digit_char(out@[j]) by {
                if j < prev.len() {
                    assert(out@[j] == prev[j]);
                }
            }
        }
        i = i + 1;
    }
    out
}

} // verus!
