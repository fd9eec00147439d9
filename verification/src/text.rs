//! Verified text utilities: decimal integer parsing as the configuration
//! layer needs it.

use vstd::prelude::*;

verus! {

/// Whether `c` is an ASCII decimal digit.
pub open spec fn is_dec_digit(c: char) -> bool {
    48 <= c as u32 <= 57
}

/// The numeric value of the ASCII decimal digit `c`.
pub open spec fn dec_digit_val(c: char) -> int {
    c as u32 - 48
}

/// Whether every character of `s` is an ASCII decimal digit.
pub open spec fn all_dec_digits(s: Seq<char>) -> bool {
    forall|i: int| 0 <= i < s.len() ==> is_dec_digit(#[trigger] s[i])
}

/// The value of `s` read as an unsigned decimal numeral.
pub open spec fn dec_val(s: Seq<char>) -> int
    decreases s.len(),
{
    if s.len() == 0 {
        0
    } else {
        dec_val(s.drop_last()) * 10 + dec_digit_val(s.last())
    }
}

/// A numeral is at least as large as the numeral made of its first `k` digits.
pub proof fn lemma_dec_val_prefix(s: Seq<char>, k: int)
    requires
        all_dec_digits(s),
        0 <= k <= s.len(),
    ensures
        dec_val(s.subrange(0, k)) <= dec_val(s),
    decreases s.len() - k,
{
    if k < s.len() {
        lemma_dec_val_prefix(s, k + 1);
        let p = s.subrange(0, k);
        let q = s.subrange(0, k + 1);
        assert(q.drop_last() =~= p);
        assert(dec_val(q) == dec_val(p) * 10 + dec_digit_val(q.last()));
        assert(dec_val(p) * 10 >= dec_val(p)) by {
            assert(dec_val(p) >= 0) by { lemma_dec_val_nonneg(p); }
        }
    } else {
        assert(s.subrange(0, k) =~= s);
    }
}

/// A decimal numeral never denotes a negative value.
pub proof fn lemma_dec_val_nonneg(s: Seq<char>)
    requires
        all_dec_digits(s),
    ensures
        dec_val(s) >= 0,
    decreases s.len(),
{
    if s.len() > 0 {
        assert(all_dec_digits(s.drop_last()));
        lemma_dec_val_nonneg(s.drop_last());
    }
}

/// Parsing fails when any character after the sign is not a digit.
pub proof fn lemma_parse_i32_bad_digit(s: Seq<char>)
    requires
        !all_dec_digits(signed_split(s).1),
    ensures
        spec_parse_i32(s) is None,
{
}

/// Parsing fails when the numeral denotes a value outside the 32-bit range.
pub proof fn lemma_parse_i32_out_of_range(s: Seq<char>)
    requires
        dec_val(signed_split(s).1) > 0x8000_0000,
    ensures
        spec_parse_i32(s) is None,
{
}

/// The digits of `s` with a leading sign stripped: `(negative, digits)`.
pub open spec fn signed_split(s: Seq<char>) -> (bool, Seq<char>) {
    if s.len() > 0 && s[0] == '-' {
        (true, s.skip(1))
    } else if s.len() > 0 && s[0] == '+' {
        (false, s.skip(1))
    } else {
        (false, s)
    }
}

/// What parsing `s` as a 32-bit signed decimal integer yields: the value when
/// `s` is an optional sign followed by one or more digits and the value fits,
/// nothing otherwise.
pub open spec fn spec_parse_i32(s: Seq<char>) -> Option<i32> {
    let (neg, ds) = signed_split(s);
    if ds.len() > 0 && all_dec_digits(ds) {
        let v = if neg { -dec_val(ds) } else { dec_val(ds) };
        if i32::MIN <= v <= i32::MAX {
            Some(v as i32)
        } else {
            None
        }
    } else {
        None
    }
}

/// Parses `s` as a 32-bit signed decimal integer: an optional `+` or `-`
/// sign followed by one or more digits, rejected when out of range.
pub fn parse_i32(s: &str) -> (r: Option<i32>)
    ensures
        r == spec_parse_i32(s@),
{
    let n = s.unicode_len();
    let ghost neg_s = signed_split(s@).0;
    let ghost ds_s = signed_split(s@).1;
    let (neg, start): (bool, usize) = if n > 0 {
        let c0 = s.get_char(0);
        if c0 == '-' {
            (true, 1)
        } else if c0 == '+' {
            (false, 1)
        } else {
            (false, 0)
        }
    } else {
        (false, 0)
    };
    proof {
        assert(ds_s =~= s@.subrange(start as int, n as int));
        assert(neg == neg_s);
    }
    if start == n {
        return None;
    }
    // Accumulate into an i64: the cap below keeps it far from overflow.
    let mut acc: i64 = 0;
    let mut i: usize = start;
    while i < n
        invariant
            start <= i <= n,
            n == s@.len(),
            neg_s == signed_split(s@).0,
            ds_s == signed_split(s@).1,
            ds_s == s@.subrange(start as int, n as int),
            all_dec_digits(s@.subrange(start as int, i as int)),
            acc == dec_val(s@.subrange(start as int, i as int)),
            0 <= acc <= 0x8000_0000,
        decreases n - i,
    {
        let c = s.get_char(i);
        let u = c as u32;
        if !(48 <= u && u <= 57) {
            proof {
                assert(ds_s[i - start] == s@[i as int]);
                assert(!is_dec_digit(ds_s[i - start]));
                assert(!all_dec_digits(ds_s));
                lemma_parse_i32_bad_digit(s@);
            }
            return None;
        }
        proof {
            assert(s@.subrange(start as int, i + 1 as int).drop_last()
                =~= s@.subrange(start as int, i as int));
        }
        acc = acc * 10 + ((u - 48) as i64);
        i += 1;
        if acc > 0x8000_0000 {
            // Every later digit only grows the value, so it cannot fit.
            proof {
                let pre = s@.subrange(start as int, i as int);
                if all_dec_digits(ds_s) {
                    assert(pre =~= ds_s.subrange(0, i - start));
                    lemma_dec_val_prefix(ds_s, i - start);
                    assert(dec_val(ds_s) >= acc);
                    lemma_parse_i32_out_of_range(s@);
                } else {
                    lemma_parse_i32_bad_digit(s@);
                }
            }
            return None;
        }
    }
    proof {
        assert(s@.subrange(start as int, i as int) =~= ds_s);
    }
    if neg {
        if acc > 0x8000_0000 {
            return None;
        }
        Some((-acc) as i32)
    } else {
        if acc > 0x7fff_ffff {
            return None;
        }
        Some(acc as i32)
    }
}

} // verus!
