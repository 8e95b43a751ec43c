//! Decimal digits: spec-level views of digit characters and digit strings,
//! and verified rendering of small numbers as zero-padded digit pairs.

use vstd::prelude::*;

verus! {

/// A decimal ASCII digit character, `'0'` through `'9'`.
pub open spec fn is_digit_char(c: char) -> bool {
    48 <= c as int <= 57
}

/// The numeric value of a digit character.
pub open spec fn digit_val(c: char) -> int {
    c as int - 48
}

/// The digit character for a value in `0 ..= 9`.
pub open spec fn digit_char(d: int) -> char {
    if d == 0 {
        '0'
    } else if d == 1 {
        '1'
    } else if d == 2 {
        '2'
    } else if d == 3 {
        '3'
    } else if d == 4 {
        '4'
    } else if d == 5 {
        '5'
    } else if d == 6 {
        '6'
    } else if d == 7 {
        '7'
    } else if d == 8 {
        '8'
    } else {
        '9'
    }
}

/// Every character of `s` is a decimal digit.
pub open spec fn all_digits(s: Seq<char>) -> bool {
    forall|i: int| 0 <= i < s.len() ==> is_digit_char(s[i])
}

/// `digit_char` and `digit_val` are mutually inverse on `0 ..= 9`.
pub proof fn lemma_digit_char_val(d: int)
    requires
        0 <= d <= 9,
    ensures
        is_digit_char(digit_char(d)),
        digit_val(digit_char(d)) == d,
{
}

/// The value of a digit string read as a decimal number.
pub open spec fn dec_val(s: Seq<char>) -> int
    decreases s.len(),
{
    if s.len() == 0 {
        0
    } else {
        dec_val(s.drop_last()) * 10 + digit_val(s.last())
    }
}

/// A string segment parses as a number: non-empty, digits only, and its
/// value fits in an `i32`.
pub open spec fn seg_numeric(s: Seq<char>) -> bool {
    &&& s.len() > 0
    &&& all_digits(s)
    &&& dec_val(s) <= i32::MAX
}

/// The two-character, zero-padded rendering of a value in `0 ..= 99`.
pub open spec fn two_digit_pair(n: int) -> Seq<char> {
    seq![digit_char(n / 10), digit_char(n % 10)]
}

/// The decimal rendering of a non-negative number, without padding.
pub open spec fn dec_digits(n: int) -> Seq<char>
    decreases n,
{
    if n <= 9 {
        seq![digit_char(n)]
    } else {
        dec_digits(n / 10) + seq![digit_char(n % 10)]
    }
}

/// The value of a digit string is non-negative.
pub proof fn lemma_dec_val_nonneg(s: Seq<char>)
    requires
        all_digits(s),
    ensures
        dec_val(s) >= 0,
    decreases s.len(),
{
    if s.len() > 0 {
        assert(all_digits(s.drop_last()));
        lemma_dec_val_nonneg(s.drop_last());
    }
}

/// Reading one more digit multiplies the value by ten and adds the digit.
pub proof fn lemma_dec_val_push(s: Seq<char>, c: char)
    ensures
        dec_val(s.push(c)) == dec_val(s) * 10 + digit_val(c),
{
    assert(s.push(c).drop_last() =~= s);
}

/// A digit string is worth at least any of its prefixes.
pub proof fn lemma_dec_val_prefix_le(s: Seq<char>, k: int)
    requires
        all_digits(s),
        0 <= k <= s.len(),
    ensures
        dec_val(s.take(k)) <= dec_val(s),
    decreases s.len() - k,
{
    if k < s.len() {
        lemma_dec_val_prefix_le(s, k + 1);
        let t = s.take(k + 1);
        assert(t.drop_last() =~= s.take(k));
        assert(t.last() == s[k]);
        lemma_dec_val_nonneg(s.take(k));
        assert(dec_val(s.take(k)) <= dec_val(s.take(k)) * 10 + digit_val(s[k]));
    } else {
        assert(s.take(k) =~= s);
    }
}

/// Read `s[start .. end]` as a decimal number, if it is one that fits in an
/// `i32`.
pub fn parse_segment(s: &str, start: usize, end: usize) -> (r: Option<i32>)
    requires
        start <= end <= s@.len(),
    ensures
        ({
            let seg = s@.subrange(start as int, end as int);
            match r {
                Some(v) => seg_numeric(seg) && 0 <= v && v == dec_val(seg),
                None => !seg_numeric(seg),
            }
        }),
{
    let ghost seg = s@.subrange(start as int, end as int);
    if start == end {
        return None;
    }
    let mut acc: u64 = 0;
    let mut i: usize = start;
    while i < end
        invariant
            start <= i <= end <= s@.len(),
            seg == s@.subrange(start as int, end as int),
            all_digits(seg.take(i - start)),
            acc == dec_val(seg.take(i - start)),
            acc <= 0x7fff_ffff,
        decreases end - i,
    {
        let c = s.get_char(i);
        let v = c as u32;
        proof {
            assert(seg[i - start] == s@[i as int]);
        }
        if v < 48 || v > 57 {
            proof {
                assert(!all_digits(seg));
            }
            return None;
        }
        let d = v - 48;
        let next: u64 = acc * 10 + d as u64;
        proof {
            lemma_dec_val_push(seg.take(i - start), seg[i - start]);
            assert(seg.take(i - start).push(seg[i - start]) =~= seg.take(i - start + 1));
        }
        if next > 0x7fff_ffff {
            proof {
                if all_digits(seg) {
                    lemma_dec_val_prefix_le(seg, i - start + 1);
                }
            }
            return None;
        }
        acc = next;
        i = i + 1;
    }
    proof {
        assert(seg.take(end - start) =~= seg);
    }
    Some(acc as i32)
}

/// A zero-padded digit pair is two digit characters worth its input.
pub proof fn lemma_two_digit_pair_digits(n: int)
    requires
        0 <= n <= 99,
    ensures
        two_digit_pair(n).len() == 2,
        all_digits(two_digit_pair(n)),
        dec_val(two_digit_pair(n)) == n,
{
    let p = two_digit_pair(n);
    lemma_digit_char_val(n / 10);
    lemma_digit_char_val(n % 10);
    assert(p.drop_last() =~= seq![digit_char(n / 10)]);
    assert(seq![digit_char(n / 10)].drop_last() =~= Seq::<char>::empty());
    assert(dec_val(Seq::<char>::empty()) == 0);
    assert(dec_val(seq![digit_char(n / 10)]) == digit_val(digit_char(n / 10)));
    assert(dec_val(p) == digit_val(digit_char(n / 10)) * 10 + digit_val(digit_char(n % 10)));
}

/// The unpadded rendering of a non-negative number is a non-empty digit
/// string worth the number itself.
pub proof fn lemma_dec_digits_val(n: int)
    requires
        n >= 0,
    ensures
        dec_digits(n).len() >= 1,
        all_digits(dec_digits(n)),
        dec_val(dec_digits(n)) == n,
    decreases n,
{
    if n <= 9 {
        lemma_digit_char_val(n);
        assert(seq![digit_char(n)].drop_last() =~= Seq::<char>::empty());
        assert(dec_val(Seq::<char>::empty()) == 0);
        assert(dec_val(seq![digit_char(n)]) == digit_val(digit_char(n)));
    } else {
        lemma_dec_digits_val(n / 10);
        lemma_digit_char_val(n % 10);
        assert(dec_digits(n) =~= dec_digits(n / 10).push(digit_char(n % 10)));
        lemma_dec_val_push(dec_digits(n / 10), digit_char(n % 10));
        vstd::arithmetic::div_mod::lemma_fundamental_div_mod(n, 10);
    }
}

/// A one-character string slice holding the digit character for `d`.
pub fn digit_str(d: u8) -> (r: &'static str)
    requires
        d <= 9,
    ensures
        r@ =~= seq![digit_char(d as int)],
{
    proof {
        reveal_strlit("0");
        reveal_strlit("1");
        reveal_strlit("2");
        reveal_strlit("3");
        reveal_strlit("4");
        reveal_strlit("5");
        reveal_strlit("6");
        reveal_strlit("7");
        reveal_strlit("8");
        reveal_strlit("9");
    }
    if d == 0 {
        "0"
    } else if d == 1 {
        "1"
    } else if d == 2 {
        "2"
    } else if d == 3 {
        "3"
    } else if d == 4 {
        "4"
    } else if d == 5 {
        "5"
    } else if d == 6 {
        "6"
    } else if d == 7 {
        "7"
    } else if d == 8 {
        "8"
    } else {
        "9"
    }
}

/// Append the two-character, zero-padded rendering of `n` to `out`.
pub fn push_two_digits(out: &mut String, n: i32)
    requires
        0 <= n <= 99,
    ensures
        final(out)@ == old(out)@ + two_digit_pair(n as int),
{
    let tens = (n / 10) as u8;
    let ones = (n % 10) as u8;
    out.append(digit_str(tens));
    out.append(digit_str(ones));
    assert(final(out)@ =~= old(out)@ + two_digit_pair(n as int));
}

/// The decimal rendering of a non-negative number, without padding.
pub fn dec_string(n: u32) -> (r: String)
    ensures
        r@ == dec_digits(n as int),
    decreases n,
{
    if n <= 9 {
        let mut s = String::new();
        s.append(digit_str(n as u8));
        assert(s@ =~= dec_digits(n as int));
        s
    } else {
        let mut s = dec_string(n / 10);
        s.append(digit_str((n % 10) as u8));
        assert(s@ =~= dec_digits(n as int));
        s
    }
}

} // verus!
