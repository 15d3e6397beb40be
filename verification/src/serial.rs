//! Serial day numbers.
//!
//! A date/time cell stores its value as a decimal count of days since the
//! spreadsheet epoch. This module parses that text exactly — an optional
//! sign, integer digits, and an optional fractional part — and turns it
//! into a Unix timestamp: `days - 25569` whole days from the reference
//! epoch, `86400` seconds each, with the fractional part carried to
//! nanosecond resolution. The arithmetic is exact integer arithmetic
//! throughout.

use vstd::arithmetic::div_mod::lemma_multiply_divide_lt;
use vstd::prelude::*;

use crate::chars::{all_digits, digits_val, is_digit_char, lemma_pow10_values, pow10};
use crate::numfmt::{lemma_run_len_eq, run_len};

verus! {

/// Days between the spreadsheet serial epoch and 1970-01-01.
pub const EPOCH_OFFSET_DAYS: u64 = 25569;

/// Largest timestamp magnitude, in seconds, the decoder accepts; serials
/// further from the epoch are rejected as unparsable.
pub const MAX_TS_SECS: u64 = 8000000000000;

/// Most significant integer digits a serial may carry once leading zeros
/// are dropped; any longer value lies far outside [`MAX_TS_SECS`] anyway.
pub const MAX_SERIAL_INT_DIGITS: usize = 12;

/// Fractional digits actually used: nanosecond resolution.
pub const MAX_FRAC_DIGITS: usize = 9;

/// The digits of `s` past an optional leading sign.
pub open spec fn num_body(s: Seq<char>) -> Seq<char> {
    if s.len() >= 1 && (s[0] == '+' || s[0] == '-') {
        s.skip(1)
    } else {
        s
    }
}

/// The sign of the serial: `-1` under a leading minus, else `1`.
pub open spec fn sign_of(s: Seq<char>) -> int {
    if s.len() >= 1 && s[0] == '-' {
        -1
    } else {
        1
    }
}

/// Position of the first `.` in `s`, if any.
pub open spec fn dot_pos_from(s: Seq<char>, i: int) -> Option<int>
    decreases s.len() - i,
{
    if i < 0 || i >= s.len() {
        None
    } else if s[i] == '.' {
        Some(i)
    } else {
        dot_pos_from(s, i + 1)
    }
}

/// The serial as an exact fraction `numerator / denominator` of days, or
/// nothing when the text is not a signed decimal number or its integer part
/// keeps more than [`MAX_SERIAL_INT_DIGITS`] significant digits. The
/// fractional part is truncated to [`MAX_FRAC_DIGITS`] digits.
pub open spec fn spec_serial_num(s: Seq<char>) -> Option<(int, int)> {
    let b = num_body(s);
    let parts = match dot_pos_from(b, 0) {
        None => {
            if b.len() >= 1 && all_digits(b) {
                Some((b, Seq::<char>::empty()))
            } else {
                None
            }
        },
        Some(d) => {
            let ip = b.take(d);
            let fp = b.skip(d + 1);
            if b.len() >= 2 && all_digits(ip) && all_digits(fp) {
                Some((ip, fp))
            } else {
                None
            }
        },
    };
    match parts {
        None => None,
        Some((ip, fp0)) => {
            let stripped = ip.skip(run_len(ip, '0'));
            let fp = if fp0.len() > MAX_FRAC_DIGITS {
                fp0.take(MAX_FRAC_DIGITS as int)
            } else {
                fp0
            };
            if stripped.len() > MAX_SERIAL_INT_DIGITS {
                None
            } else {
                let p = pow10(fp.len() as int);
                Some((sign_of(s) * (digits_val(stripped) * p + digits_val(fp)), p))
            }
        },
    }
}

/// Integer division truncated toward zero, the sense in which a timestamp
/// splits into whole seconds and a fraction.
pub open spec fn trunc_div(a: int, b: int) -> int {
    if a >= 0 {
        a / b
    } else {
        -((-a) / b)
    }
}

pub open spec fn abs_int(a: int) -> int {
    if a >= 0 {
        a
    } else {
        -a
    }
}

/// The Unix timestamp `(seconds, nanoseconds)` encoded by the serial text:
/// the serial value, less the epoch offset, times 86400 seconds per day,
/// truncated toward zero, the remaining fraction of a second in
/// nanoseconds. Nothing when the text does not parse or the timestamp lies
/// beyond [`MAX_TS_SECS`].
pub open spec fn spec_serial_ts(s: Seq<char>) -> Option<(int, int)> {
    match spec_serial_num(s) {
        None => None,
        Some((n, p)) => {
            let m = (n - EPOCH_OFFSET_DAYS * p) * 86400;
            let secs = trunc_div(m, p);
            let nanos = (abs_int(m) % p) * 1000000000 / p;
            if -(MAX_TS_SECS as int) <= secs <= MAX_TS_SECS as int {
                Some((secs, nanos))
            } else {
                None
            }
        },
    }
}

/// The number written by the digits `v[lo .. hi]`, at most 12 of them.
pub fn parse_digits_u64(v: &Vec<char>, lo: usize, hi: usize) -> (r: u64)
    requires
        lo <= hi <= v@.len(),
        hi - lo <= 12,
        forall|k: int| lo <= k < hi ==> is_digit_char(#[trigger] v@[k]),
    ensures
        r == digits_val(v@.subrange(lo as int, hi as int)),
        r <= pow10((hi - lo) as int) - 1,
{
    let ghost s = v@.subrange(lo as int, hi as int);
    let mut r: u64 = 0;
    let mut i: usize = lo;
    while i < hi
        invariant
            lo <= i <= hi <= v@.len(),
            hi - lo <= 12,
            s == v@.subrange(lo as int, hi as int),
            forall|k: int| lo <= k < hi ==> is_digit_char(#[trigger] v@[k]),
            r == digits_val(s.subrange(0, i - lo)),
            r <= pow10(i - lo) - 1,
        decreases hi - i,
    {
        proof {
            crate::chars::lemma_pow10_mono(i - lo, 11);
            lemma_pow10_values();
            assert(r * 10 + 9 <= pow10(i + 1 - lo) - 1) by (nonlinear_arith)
                requires
                    0 <= r <= pow10(i - lo) - 1,
                    pow10(i + 1 - lo) == 10 * pow10(i - lo),
            ;
            assert(r * 10 <= (100000000000 - 1) * 10) by (nonlinear_arith)
                requires
                    0 <= r <= 100000000000 - 1,
            ;
        }
        let c = v[i];
        let d: u64 = (c as u32 as u64) - 48;
        r = r * 10 + d;
        i = i + 1;
        proof {
            assert(s.subrange(0, i - lo).drop_last() =~= s.subrange(0, i - 1 - lo));
            assert(s.subrange(0, i - lo).last() == v@[i - 1]);
        }
    }
    proof {
        assert(s.subrange(0, (hi - lo) as int) =~= s);
    }
    r
}

/// Ten to the power `k` as a machine integer, for `k` up to 9.
fn pow10_u64(k: usize) -> (r: u64)
    requires
        k <= 9,
    ensures
        r == pow10(k as int),
        1 <= r <= 1000000000,
{
    let mut r: u64 = 1;
    let mut i: usize = 0;
    while i < k
        invariant
            i <= k <= 9,
            r == pow10(i as int),
            1 <= r <= 1000000000,
        decreases k - i,
    {
        proof {
            crate::chars::lemma_pow10_mono(i + 1, 9);
            lemma_pow10_values();
        }
        r = r * 10;
        i = i + 1;
    }
    r
}

/// The Unix timestamp encoded by the serial text, exactly
/// [`spec_serial_ts`].
#[verifier::rlimit(100)]
pub fn parse_serial(v: &Vec<char>) -> (r: Option<(i64, u32)>)
    ensures
        r is Some <==> spec_serial_ts(v@) is Some,
        r matches Some(t) ==> spec_serial_ts(v@) == Some((t.0 as int, t.1 as int)),
{
    let n = v.len();
    let ghost b = num_body(v@);
    // Optional sign.
    let neg = n >= 1 && v[0] == '-';
    let start: usize = if n >= 1 && (v[0] == '-' || v[0] == '+') {
        1
    } else {
        0
    };
    proof {
        assert(b =~= v@.skip(start as int));
    }
    // Integer digit run.
    let mut d: usize = start;
    while d < n && '0' <= v[d] && v[d] <= '9'
        invariant
            start <= d <= n,
            n == v@.len(),
            forall|k: int| start <= k < d ==> is_digit_char(#[trigger] v@[k]),
        decreases n - d,
    {
        d = d + 1;
    }
    proof {
        assert(forall|k: int| 0 <= k < d - start ==> is_digit_char(#[trigger] b[k]));
    }
    // Establish the shape of the number: digits, then possibly a dot and
    // more digits, and nothing else.
    let fstart: usize;
    let fend: usize;
    if d == n {
        if d == start {
            // Empty: not a number.
            proof {
                assert(b.len() == 0);
                assert(dot_pos_from(b, 0) is None);
                assert(spec_serial_num(v@) is None);
            }
            return None;
        }
        fstart = n;
        fend = n;
        proof {
            assert(all_digits(b));
            lemma_no_dot_in_digits(b, 0);
            assert(dot_pos_from(b, 0) is None);
        }
    } else if v[d] == '.' {
        // Fractional digit run, which must reach the end.
        let mut e: usize = d + 1;
        while e < n && '0' <= v[e] && v[e] <= '9'
            invariant
                d + 1 <= e <= n,
                n == v@.len(),
                forall|k: int| d + 1 <= k < e ==> is_digit_char(#[trigger] v@[k]),
            decreases n - e,
        {
            e = e + 1;
        }
        proof {
            assert(b[d - start] == v@[d as int]);
            assert(dot_pos_from(b, 0) == Some((d - start) as int)) by {
                lemma_dot_pos_found(b, 0, (d - start) as int);
            }
        }
        if e < n {
            // A character that is neither digit nor the single dot.
            proof {
                assert(b[e - start] == v@[e as int]);
                assert(!is_digit_char(b[e - start]));
                assert(b.skip(d - start + 1)[e - d - 1] == b[e - start]);
                assert(!all_digits(b.skip(d - start + 1)));
                assert(spec_serial_num(v@) is None);
            }
            return None;
        }
        if d == start && n == d + 1 {
            // A bare dot with no digits on either side.
            proof {
                assert(b.len() == 1);
                assert(spec_serial_num(v@) is None);
            }
            return None;
        }
        fstart = d + 1;
        fend = n;
        proof {
            assert(b.take((d - start) as int) =~= v@.subrange(start as int, d as int));
            assert(all_digits(b.take((d - start) as int)));
            assert(b.skip((d - start) as int + 1) =~= v@.subrange(d + 1, n as int));
            assert(all_digits(b.skip((d - start) as int + 1)));
        }
    } else {
        // A character that is neither digit nor dot inside the integer part.
        proof {
            assert(b[d - start] == v@[d as int]);
            lemma_dot_pos_not_digit(b, 0, (d - start) as int);
            match dot_pos_from(b, 0) {
                None => {
                    assert(!all_digits(b));
                },
                Some(dot) => {
                    lemma_dot_pos_props(b, (d - start) as int);
                    assert(dot > d - start);
                    assert(b.take(dot)[d - start] == b[d - start]);
                    assert(!all_digits(b.take(dot)));
                },
            }
            assert(spec_serial_num(v@) is None);
        }
        return None;
    }
    // Strip leading zeros off the integer part and cap its width.
    let mut z: usize = start;
    while z < d && v[z] == '0'
        invariant
            start <= z <= d,
            d <= n == v@.len(),
            forall|k: int| start <= k < z ==> v@[k] == '0',
        decreases d - z,
    {
        z = z + 1;
    }
    let ghost ip = b.take((d - start) as int);
    proof {
        if d == n {
            assert(ip =~= b);
        }
        assert(forall|k: int| 0 <= k < z - start ==> ip[k] == '0');
        if z < d {
            assert(ip[z - start] == v@[z as int]);
        }
        lemma_run_len_eq(ip, '0', (z - start) as int);
        assert(ip.skip((z - start) as int) =~= v@.subrange(z as int, d as int));
    }
    if d - z > MAX_SERIAL_INT_DIGITS {
        proof {
            assert(ip.skip(run_len(ip, '0')).len() == d - z);
            assert(spec_serial_num(v@) is None);
        }
        return None;
    }
    // Parse the parts.
    let flen: usize = if fend - fstart > MAX_FRAC_DIGITS {
        MAX_FRAC_DIGITS
    } else {
        fend - fstart
    };
    let ghost fp0: Seq<char> = if d < n {
        b.skip((d - start) as int + 1)
    } else {
        Seq::empty()
    };
    let ghost fp: Seq<char> = if fp0.len() > MAX_FRAC_DIGITS {
        fp0.take(MAX_FRAC_DIGITS as int)
    } else {
        fp0
    };
    proof {
        if d < n {
            assert(fp =~= v@.subrange(fstart as int, fstart + flen));
        } else {
            assert(fend == fstart);
            assert(fp =~= v@.subrange(fstart as int, fstart + flen));
        }
    }
    let intval: u64 = parse_digits_u64(v, z, d);
    let fracval: u64 = parse_digits_u64(v, fstart, fstart + flen);
    let p: u64 = pow10_u64(flen);
    let ghost stripped = ip.skip(run_len(ip, '0'));
    let ghost n0: int = (if neg {
        -1int
    } else {
        1int
    }) * ((intval as int) * (p as int) + (fracval as int));
    proof {
        if d == n {
            assert(ip =~= b);
        }
        assert(stripped =~= v@.subrange(z as int, d as int));
        assert(digits_val(stripped) == intval as int);
        assert(digits_val(fp) == fracval as int);
        assert(fp.len() == flen);
        assert(sign_of(v@) == (if neg {
            -1int
        } else {
            1int
        }));
        assert(spec_serial_num(v@) == Some((n0, p as int)));
    }
    proof {
        crate::chars::lemma_pow10_mono((d - z) as int, 12);
        assert(pow10(12) == 1000000000000) by {
            lemma_pow10_values();
        }
        assert(intval <= 999999999999);
        assert(fracval <= p - 1);
    }
    // Exact integer arithmetic on magnitudes.
    proof {
        assert((intval as int) * (p as int) <= 999999999999int * 1000000000int)
            by (nonlinear_arith)
            requires
                0 <= intval as int <= 999999999999,
                0 <= p as int <= 1000000000,
        ;
        assert((EPOCH_OFFSET_DAYS as int) * (p as int) <= 25569000000000int) by (nonlinear_arith)
            requires
                0 <= p as int <= 1000000000,
        ;
    }
    let a: u128 = (intval as u128) * (p as u128) + (fracval as u128);
    let offset: u128 = (EPOCH_OFFSET_DAYS as u128) * (p as u128);
    let neg_m: bool;
    let mag_days: u128;
    if !neg {
        if a >= offset {
            neg_m = false;
            mag_days = a - offset;
        } else {
            neg_m = true;
            mag_days = offset - a;
        }
    } else {
        neg_m = true;
        mag_days = a + offset;
    }
    let ghost m: int = (n0 - (EPOCH_OFFSET_DAYS as int) * (p as int)) * 86400;
    proof {
        assert(mag_days <= 1100000000000000000000int);
        assert(mag_days * 86400 <= 1100000000000000000000int * 86400) by (nonlinear_arith)
            requires
                0 <= mag_days as int <= 1100000000000000000000int,
        ;
        assert(a as int == (intval as int) * (p as int) + (fracval as int));
        assert(offset as int == (EPOCH_OFFSET_DAYS as int) * (p as int));
        if neg {
            assert(n0 == -(a as int));
            assert(mag_days as int == a as int + offset as int);
            assert(m == (-(a as int) - (offset as int)) * 86400);
        } else {
            assert(n0 == a as int);
            assert(m == ((a as int) - (offset as int)) * 86400);
        }
    }
    let mag: u128 = mag_days * 86400;
    proof {
        assert(mag == abs_int(m));
        assert(neg_m ==> m <= 0);
        assert(!neg_m ==> m >= 0);
    }
    let secs_mag: u128 = mag / (p as u128);
    let rem: u128 = mag % (p as u128);
    proof {
        vstd::arithmetic::div_mod::lemma_div_of0(p as int);
        assert(trunc_div(m, p as int) == (if neg_m {
            -(secs_mag as int)
        } else {
            secs_mag as int
        }));
        assert((abs_int(m) % (p as int)) == rem as int);
    }
    if secs_mag > MAX_TS_SECS as u128 {
        proof {
            if neg_m {
                assert(trunc_div(m, p as int) < -(MAX_TS_SECS as int));
            } else {
                assert(trunc_div(m, p as int) > MAX_TS_SECS as int);
            }
            assert(spec_serial_ts(v@) is None);
        }
        return None;
    }
    let secs: i64 = if neg_m {
        -(secs_mag as i64)
    } else {
        secs_mag as i64
    };
    proof {
        assert(rem < p as int) by {
            lemma_mod_bound_u128(mag as int, p as int);
        }
        assert(rem * 1000000000 < (p as int) * 1000000000) by (nonlinear_arith)
            requires
                0 <= (rem as int) && (rem as int) < (p as int),
        ;
        lemma_multiply_divide_lt((rem * 1000000000) as int, p as int, 1000000000int);
    }
    let nanos: u32 = ((rem * 1000000000) / (p as u128)) as u32;
    proof {
        assert(spec_serial_ts(v@) == Some((secs as int, nanos as int)));
    }
    Some((secs, nanos))
}

/// A sequence of digits holds no dot.
proof fn lemma_no_dot_in_digits(s: Seq<char>, i: int)
    requires
        0 <= i,
        forall|k: int| i <= k < s.len() ==> is_digit_char(#[trigger] s[k]),
    ensures
        dot_pos_from(s, i) is None,
    decreases s.len() - i,
{
    if i < s.len() {
        lemma_no_dot_in_digits(s, i + 1);
    }
}

/// Scanning for a dot skips a digit prefix.
proof fn lemma_dot_pos_found(s: Seq<char>, i: int, d: int)
    requires
        0 <= i <= d < s.len(),
        forall|k: int| i <= k < d ==> is_digit_char(#[trigger] s[k]),
        s[d] == '.',
    ensures
        dot_pos_from(s, i) == Some(d),
    decreases d - i,
{
    if i < d {
        lemma_dot_pos_found(s, i + 1, d);
    }
}

/// Scanning for a dot past a digit prefix that ends in a character that is
/// neither digit nor dot finds nothing before that character.
proof fn lemma_dot_pos_not_digit(s: Seq<char>, i: int, d: int)
    requires
        0 <= i <= d <= s.len(),
        forall|k: int| i <= k < d ==> is_digit_char(#[trigger] s[k]),
        d < s.len() ==> !is_digit_char(s[d]) && s[d] != '.',
    ensures
        d < s.len() ==> dot_pos_from(s, i) == dot_pos_from(s, d),
    decreases d - i,
{
    if i < d {
        lemma_dot_pos_not_digit(s, i + 1, d);
    }
}

/// A found dot lies at or past the scan start and is a dot.
proof fn lemma_dot_pos_props(s: Seq<char>, i: int)
    requires
        0 <= i,
    ensures
        dot_pos_from(s, i) matches Some(x) ==> i <= x < s.len() && s[x] == '.',
    decreases s.len() - i,
{
    if i < s.len() && s[i] != '.' {
        lemma_dot_pos_props(s, i + 1);
    }
}

proof fn lemma_mod_bound_u128(x: int, m: int)
    requires
        0 <= x,
        1 <= m,
    ensures
        0 <= x % m < m,
{
    vstd::arithmetic::div_mod::lemma_mod_bound(x, m);
}

} // verus!
