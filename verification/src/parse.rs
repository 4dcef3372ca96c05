//! Parsing a signed 64-bit integer from the bytes of a text line, reporting
//! malformed text or an out-of-range value as failure.

use vstd::prelude::*;

verus! {

/// Whether `c` is the code of a decimal digit.
pub open spec fn is_digit(c: u8) -> bool {
    48 <= c <= 57
}

/// Whether every byte of `s` is a decimal digit.
pub open spec fn all_digits(s: Seq<u8>) -> bool {
    forall|i: int| 0 <= i < s.len() ==> is_digit(s[i])
}

/// The number that the digit bytes of `s` write in decimal.
pub open spec fn dec_val(s: Seq<u8>) -> int
    decreases s.len(),
{
    if s.len() == 0 {
        0
    } else {
        dec_val(s.drop_last()) * 10 + (s.last() - 48)
    }
}

/// The signed value of a digit run under an optional leading minus, or
/// nothing when the run is empty, holds a non-digit, or writes a value
/// outside the 64-bit signed range.
pub open spec fn signed_digits_val(neg: bool, ds: Seq<u8>) -> Option<int> {
    if ds.len() == 0 || !all_digits(ds) {
        None
    } else {
        let v = if neg {
            -dec_val(ds)
        } else {
            dec_val(ds)
        };
        if i64::MIN <= v <= i64::MAX {
            Some(v)
        } else {
            None
        }
    }
}

/// What the bytes of `s` denote as a signed 64-bit decimal integer: an
/// optional sign followed by at least one digit, the whole within range.
pub open spec fn parsed_i64(s: Seq<u8>) -> Option<int> {
    if s.len() >= 1 && (s[0] == 43u8 || s[0] == 45u8) {
        signed_digits_val(s[0] == 45u8, s.drop_first())
    } else {
        signed_digits_val(false, s)
    }
}

/// A run of digits denotes a nonnegative number.
proof fn lemma_dec_val_nonneg(s: Seq<u8>)
    requires
        all_digits(s),
    ensures
        dec_val(s) >= 0,
    decreases s.len(),
{
    if s.len() > 0 {
        assert(all_digits(s.drop_last()));
        lemma_dec_val_nonneg(s.drop_last());
    }
}

/// Extending a digit prefix by one digit multiplies its value by ten and
/// adds the new digit.
proof fn lemma_dec_val_step(s: Seq<u8>, k: int)
    requires
        0 <= k < s.len(),
    ensures
        dec_val(s.subrange(0, k + 1)) == dec_val(s.subrange(0, k)) * 10 + (s[k] - 48),
{
    let t = s.subrange(0, k + 1);
    assert(t.drop_last() =~= s.subrange(0, k));
    assert(t.last() == s[k]);
}

/// A digit run's value is at least the value of any of its prefixes.
proof fn lemma_dec_val_prefix_le(s: Seq<u8>, k: int)
    requires
        all_digits(s),
        0 <= k <= s.len(),
    ensures
        dec_val(s.subrange(0, k)) <= dec_val(s),
    decreases s.len() - k,
{
    if k == s.len() {
        assert(s.subrange(0, k) =~= s);
    } else {
        lemma_dec_val_step(s, k);
        assert(all_digits(s.subrange(0, k)));
        lemma_dec_val_nonneg(s.subrange(0, k));
        lemma_dec_val_prefix_le(s, k + 1);
    }
}

/// Parses the bytes of `s` as a signed 64-bit decimal integer: an optional
/// `+` or `-` sign followed by one or more digits. Reports the denoted value,
/// or `None` when the text is malformed or the value does not fit.
pub fn parse_i64(s: &[u8]) -> (r: Option<i64>)
    ensures
        r matches Some(v) ==> parsed_i64(s@) == Some(v as int),
        r is None ==> parsed_i64(s@) is None,
{
    let n: usize = s.len();
    let mut idx: usize = 0;
    let mut neg: bool = false;
    if n >= 1 {
        let c0: u8 = *vstd::slice::slice_index_get(s, 0);
        if c0 == 43 {
            idx = 1;
        } else if c0 == 45 {
            neg = true;
            idx = 1;
        }
    }
    let ghost ds = s@.subrange(idx as int, n as int);
    proof {
        if idx == 1 {
            assert(ds =~= s@.drop_first());
        } else {
            assert(ds =~= s@);
        }
        assert(parsed_i64(s@) == signed_digits_val(neg, ds));
    }
    if idx >= n {
        return None;
    }
    let bound: u64 = if neg {
        9223372036854775808
    } else {
        9223372036854775807
    };
    let mut acc: u64 = 0;
    let mut i: usize = idx;
    while i < n
        invariant
            idx <= i <= n,
            n == s@.len(),
            ds == s@.subrange(idx as int, n as int),
            ds.len() > 0,
            parsed_i64(s@) == signed_digits_val(neg, ds),
            bound == (if neg { 9223372036854775808u64 } else { 9223372036854775807u64 }),
            i64::MIN == -bound || bound == i64::MAX,
            neg ==> i64::MIN == -bound,
            !neg ==> bound == i64::MAX,
            all_digits(ds.subrange(0, i - idx)),
            acc == dec_val(ds.subrange(0, i - idx)),
            acc <= bound,
        decreases n - i,
    {
        let c: u8 = *vstd::slice::slice_index_get(s, i);
        proof {
            assert(ds[i - idx] == s@[i as int]);
        }
        if c < 48 || c > 57 {
            return None;
        }
        let d: u64 = (c - 48) as u64;
        proof {
            lemma_dec_val_step(ds, i - idx);
            assert(all_digits(ds.subrange(0, i - idx + 1)));
        }
        if acc > 922337203685477580 {
            proof {
                lemma_overflow_means_out_of_range(ds, i - idx + 1, bound as int);
            }
            return None;
        }
        let acc10: u64 = acc * 10;
        if acc10 > bound - d {
            proof {
                lemma_overflow_means_out_of_range(ds, i - idx + 1, bound as int);
            }
            return None;
        }
        acc = acc10 + d;
        i = i + 1;
    }
    proof {
        assert(ds.subrange(0, n - idx) =~= ds);
    }
    if neg {
        if acc == 9223372036854775808 {
            Some(i64::MIN)
        } else {
            Some(-(acc as i64))
        }
    } else {
        Some(acc as i64)
    }
}

/// Once some digit prefix already writes a value above the range bound, the
/// whole text denotes no in-range value.
proof fn lemma_overflow_means_out_of_range(ds: Seq<u8>, k: int, bound: int)
    requires
        0 <= k <= ds.len(),
        all_digits(ds.subrange(0, k)),
        dec_val(ds.subrange(0, k)) > bound,
        bound >= 0,
    ensures
        all_digits(ds) ==> dec_val(ds) > bound,
{
    if all_digits(ds) {
        lemma_dec_val_prefix_le(ds, k);
    }
}

} // verus!
