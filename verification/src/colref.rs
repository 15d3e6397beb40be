//! Spreadsheet column naming and cell-reference parsing.
//!
//! Columns are named by letters in bijective base 26 (`A` = 1, …, `Z` = 26,
//! `AA` = 27, …); a cell reference is a column name followed by a decimal row
//! number, and a declared range is two references joined by `:`. This module
//! proves the letter/index mapping a bijection and parses range strings into
//! `(rows, cols)` dimensions.

use vstd::arithmetic::div_mod::{
    lemma_fundamental_div_mod, lemma_fundamental_div_mod_converse, lemma_mod_bound,
};
use vstd::prelude::*;

use crate::chars::{
    chars_string, digits_val, is_digit_char, lemma_digits_val_bound, lemma_pow10_mono,
    lemma_pow10_values, pow10, str_chars,
};

verus! {

/// An upper-case ASCII letter, the alphabet of column names.
pub open spec fn is_col_letter(c: char) -> bool {
    'A' <= c && c <= 'Z'
}

/// Value of one column letter, `A` = 1 through `Z` = 26.
pub open spec fn letter_val(c: char) -> int {
    c as int - 'A' as int + 1
}

/// A non-empty string of column letters.
pub open spec fn valid_col_letters(s: Seq<char>) -> bool {
    s.len() > 0 && forall|i: int| 0 <= i < s.len() ==> is_col_letter(#[trigger] s[i])
}

/// The column index named by a letter string, in bijective base 26.
pub open spec fn spec_letters_to_index(s: Seq<char>) -> int
    decreases s.len(),
{
    if s.len() == 0 {
        0
    } else {
        spec_letters_to_index(s.drop_last()) * 26 + letter_val(s.last())
    }
}

/// The letter with value `v + 1`, for `v` in `0 .. 26`.
pub open spec fn letter_of(v: int) -> char {
    (('A' as u32) + v as u32) as char
}

/// The letter string naming a column index, empty for indices below 1.
pub open spec fn spec_index_to_letters(n: int) -> Seq<char>
    decreases n,
{
    if n <= 0 {
        Seq::empty()
    } else {
        spec_index_to_letters((n - 1) / 26) + seq![letter_of((n - 1) % 26)]
    }
}

/// 26 to the power `n`, used to bound column indices by name length.
pub open spec fn pow26(n: int) -> int
    decreases n,
{
    if n <= 0 {
        1
    } else {
        26 * pow26(n - 1)
    }
}

proof fn lemma_pow26_pos(n: int)
    ensures
        pow26(n) >= 1,
    decreases n,
{
    if n > 0 {
        lemma_pow26_pos(n - 1);
    }
}

/// The small powers of 26 written out, for bounds on column indices.
proof fn lemma_pow26_values()
    ensures
        pow26(0) == 1,
        pow26(1) == 26,
        pow26(2) == 676,
        pow26(3) == 17576,
        pow26(4) == 456976,
        pow26(5) == 11881376,
        pow26(6) == 308915776,
{
    assert(pow26(0) == 1);
    assert(pow26(1) == 26);
    assert(pow26(2) == 676);
    assert(pow26(3) == 17576);
    assert(pow26(4) == 456976);
    assert(pow26(5) == 11881376);
    assert(pow26(6) == 308915776);
}

proof fn lemma_pow26_mono(a: int, b: int)
    requires
        a <= b,
    ensures
        pow26(a) <= pow26(b),
    decreases b,
{
    if a < b && b > 0 {
        lemma_pow26_mono(a, b - 1);
        lemma_pow26_pos(b - 1);
    }
}

/// A name of `n` letters maps to at most `2 * 26^n - 2`; a non-empty name
/// maps to 1 or more.
pub proof fn lemma_letters_to_index_bounds(s: Seq<char>)
    requires
        forall|i: int| 0 <= i < s.len() ==> is_col_letter(#[trigger] s[i]),
    ensures
        spec_letters_to_index(s) <= 2 * pow26(s.len() as int) - 2,
        s.len() > 0 ==> spec_letters_to_index(s) >= 1,
        spec_letters_to_index(s) >= 0,
    decreases s.len(),
{
    if s.len() > 0 {
        lemma_letters_to_index_bounds(s.drop_last());
        let p = spec_letters_to_index(s.drop_last());
        let v = letter_val(s.last());
        assert(1 <= v <= 26);
        assert(p * 26 <= (2 * pow26(s.len() - 1) - 2) * 26) by (nonlinear_arith)
            requires
                p <= 2 * pow26(s.len() - 1) - 2,
        ;
        assert(p * 26 >= 0) by (nonlinear_arith)
            requires
                p >= 0,
        ;
        assert(pow26(s.len() as int) == 26 * pow26(s.len() - 1));
    }
}

/// Mapping an index to letters and back returns the index: one direction of
/// the bijection between positive indices and column names.
pub proof fn lemma_index_letters_round_trip(n: int)
    requires
        n >= 1,
    ensures
        valid_col_letters(spec_index_to_letters(n)),
        spec_letters_to_index(spec_index_to_letters(n)) == n,
    decreases n,
{
    let q = (n - 1) / 26;
    let r = (n - 1) % 26;
    lemma_fundamental_div_mod(n - 1, 26);
    lemma_mod_bound(n - 1, 26);
    assert(0 <= r < 26);
    assert(n - 1 == 26 * q + r);
    assert(0 <= q < n) by (nonlinear_arith)
        requires
            n - 1 == 26 * q + r,
            0 <= r < 26,
            n >= 1,
    ;
    let s = spec_index_to_letters(n);
    assert(s == spec_index_to_letters(q) + seq![letter_of(r)]);
    assert(s.last() == letter_of(r));
    assert(s.drop_last() =~= spec_index_to_letters(q));
    assert(is_col_letter(letter_of(r)) && letter_val(letter_of(r)) == r + 1);
    if q == 0 {
        assert(spec_index_to_letters(q) =~= Seq::<char>::empty());
        assert(s.len() == 1);
        assert(spec_letters_to_index(s) == spec_letters_to_index(s.drop_last()) * 26 + letter_val(
            s.last(),
        ));
        assert(spec_letters_to_index(s) == r + 1);
        assert(n == r + 1);
    } else {
        lemma_index_letters_round_trip(q);
        assert(spec_letters_to_index(s) == q * 26 + r + 1);
    }
}

/// Mapping a column name to its index and back returns the name: the other
/// direction of the bijection.
pub proof fn lemma_letters_index_round_trip(s: Seq<char>)
    requires
        valid_col_letters(s),
    ensures
        spec_letters_to_index(s) >= 1,
        spec_index_to_letters(spec_letters_to_index(s)) == s,
    decreases s.len(),
{
    lemma_letters_to_index_bounds(s);
    lemma_letters_to_index_bounds(s.drop_last());
    let p = spec_letters_to_index(s.drop_last());
    let v = letter_val(s.last());
    let n = spec_letters_to_index(s);
    assert(n == p * 26 + v);
    assert(1 <= v <= 26);
    lemma_fundamental_div_mod_converse(n - 1, 26, p, v - 1);
    assert((n - 1) / 26 == p && (n - 1) % 26 == v - 1);
    assert(letter_of(v - 1) == s.last());
    if s.len() == 1 {
        assert(p == 0);
        assert(spec_index_to_letters(n) == spec_index_to_letters((n - 1) / 26) + seq![
            letter_of((n - 1) % 26),
        ]);
        assert(spec_index_to_letters(0) =~= Seq::<char>::empty());
        assert(spec_index_to_letters(n) =~= s);
    } else {
        assert(valid_col_letters(s.drop_last())) by {
            assert(forall|i: int|
                0 <= i < s.len() - 1 ==> #[trigger] s.drop_last()[i] == s[i]);
        }
        lemma_letters_index_round_trip(s.drop_last());
        assert(spec_index_to_letters(n) =~= s.drop_last() + seq![s.last()]);
        assert(s.drop_last() + seq![s.last()] =~= s);
    }
}

/// Longest run of consecutive column letters at or past `i`.
pub open spec fn letter_run(s: Seq<char>, i: int) -> int
    decreases s.len() - i,
{
    if i < 0 || i >= s.len() || !is_col_letter(s[i]) {
        0
    } else {
        1 + letter_run(s, i + 1)
    }
}

/// Longest run of decimal digits at or past `i`.
pub open spec fn digit_run(s: Seq<char>, i: int) -> int
    decreases s.len() - i,
{
    if i < 0 || i >= s.len() || !is_digit_char(s[i]) {
        0
    } else {
        1 + digit_run(s, i + 1)
    }
}

/// A cell reference (letters then digits) starts at position `i`.
pub open spec fn ref_match_at(s: Seq<char>, i: int) -> bool {
    &&& 0 <= i < s.len()
    &&& is_col_letter(s[i])
    &&& i + letter_run(s, i) < s.len()
    &&& is_digit_char(s[i + letter_run(s, i)])
}

/// Position of the leftmost cell reference at or past `i`, if any.
pub open spec fn find_ref_from(s: Seq<char>, i: int) -> Option<int>
    decreases s.len() - i,
{
    if i < 0 || i >= s.len() {
        None
    } else if ref_match_at(s, i) {
        Some(i)
    } else {
        find_ref_from(s, i + 1)
    }
}

/// Longest column name accepted by the parser, in letters.
pub const MAX_COL_LETTERS: usize = 6;

/// Longest row number accepted by the parser, in digits.
pub const MAX_ROW_DIGITS: usize = 9;

/// The `(row, column index)` pair read from the leftmost cell reference in
/// `s`, or nothing when `s` holds no reference or a part of it is longer
/// than the parser accepts.
pub open spec fn spec_rangify(s: Seq<char>) -> Option<(int, int)> {
    match find_ref_from(s, 0) {
        None => None,
        Some(i) => {
            let lrun = letter_run(s, i);
            let j = i + lrun;
            let drun = digit_run(s, j);
            if lrun <= MAX_COL_LETTERS && drun <= MAX_ROW_DIGITS {
                Some(
                    (digits_val(s.subrange(j, j + drun)), spec_letters_to_index(
                        s.subrange(i, j),
                    )),
                )
            } else {
                None
            }
        },
    }
}

/// Position of the leftmost `:` at or past `i`, if any.
pub open spec fn find_colon_from(s: Seq<char>, i: int) -> Option<int>
    decreases s.len() - i,
{
    if i < 0 || i >= s.len() {
        None
    } else if s[i] == ':' {
        Some(i)
    } else {
        find_colon_from(s, i + 1)
    }
}

/// The `(rows, cols)` dimension declared by a range string
/// `"<start>:<end>"`: both references are parsed as by [`spec_rangify`] and
/// the counts are inclusive differences. Nothing when the string has no `:`,
/// nothing follows the first `:`, a reference does not parse, or the end
/// lies before the start.
pub open spec fn spec_dimension(s: Seq<char>) -> Option<(int, int)> {
    match find_colon_from(s, 0) {
        None => None,
        Some(p) => {
            if p + 1 == s.len() {
                None
            } else {
                let q = match find_colon_from(s, p + 1) {
                    Some(q) => q,
                    None => s.len() as int,
                };
                match (spec_rangify(s.subrange(0, p)), spec_rangify(s.subrange(p + 1, q))) {
                    (Some(start), Some(end)) => {
                        if end.0 >= start.0 && end.1 >= start.1 {
                            Some((end.0 - start.0 + 1, end.1 - start.1 + 1))
                        } else {
                            None
                        }
                    },
                    _ => None,
                }
            }
        },
    }
}

/// The column index named by `s`, or nothing when `s` is not a column name
/// of at most [`MAX_COL_LETTERS`] letters.
pub fn letters_to_index(s: &str) -> (r: Option<usize>)
    ensures
        r is Some <==> valid_col_letters(s@) && s@.len() <= MAX_COL_LETTERS,
        r matches Some(v) ==> v == spec_letters_to_index(s@),
{
    let v = str_chars(s);
    let n = v.len();
    let r = letters_to_index_chars(&v, 0, n);
    proof {
        assert(v@.subrange(0, n as int) =~= s@);
    }
    r
}

/// The column index named by `v[lo .. hi]`, bounds as in
/// [`letters_to_index`].
pub fn letters_to_index_chars(v: &Vec<char>, lo: usize, hi: usize) -> (r: Option<usize>)
    requires
        lo <= hi <= v@.len(),
    ensures
        r is Some <==> valid_col_letters(v@.subrange(lo as int, hi as int)) && hi - lo
            <= MAX_COL_LETTERS,
        r matches Some(x) ==> x == spec_letters_to_index(v@.subrange(lo as int, hi as int)) && x
            <= 617831550,
{
    let ghost s = v@.subrange(lo as int, hi as int);
    if lo == hi || hi - lo > MAX_COL_LETTERS {
        return None;
    }
    let mut idx: usize = 0;
    let mut i: usize = lo;
    while i < hi
        invariant
            lo <= i <= hi <= v@.len(),
            hi - lo <= MAX_COL_LETTERS,
            s == v@.subrange(lo as int, hi as int),
            forall|j: int| lo <= j < i ==> is_col_letter(#[trigger] v@[j]),
            idx == spec_letters_to_index(s.subrange(0, i - lo)),
            idx <= 2 * pow26(i - lo) - 2,
        decreases hi - i,
    {
        let c = v[i];
        if c < 'A' || c > 'Z' {
            proof {
                assert(s[i - lo] == v@[i as int]);
                assert(!valid_col_letters(s));
            }
            return None;
        }
        proof {
            lemma_pow26_mono(i - lo, MAX_COL_LETTERS - 1);
            lemma_pow26_values();
            assert(pow26(MAX_COL_LETTERS - 1) == 11881376);
            assert(idx * 26 <= (2 * 11881376 - 2) * 26) by (nonlinear_arith)
                requires
                    0 <= idx <= 2 * 11881376 - 2,
            ;
            assert(idx * 26 + 26 <= 2 * pow26(i + 1 - lo) - 26) by (nonlinear_arith)
                requires
                    idx <= 2 * pow26(i - lo) - 2,
                    pow26(i + 1 - lo) == 26 * pow26(i - lo),
            ;
        }
        let val: usize = (c as u32 as usize) - 64;
        idx = idx * 26 + val;
        i = i + 1;
        proof {
            assert(s.subrange(0, i - lo).drop_last() =~= s.subrange(0, i - 1 - lo));
            assert(s.subrange(0, i - lo).last() == v@[i - 1]);
        }
    }
    proof {
        assert(s.subrange(0, (hi - lo) as int) =~= s);
        assert(forall|j: int| 0 <= j < s.len() ==> #[trigger] s[j] == v@[j + lo]);
        lemma_pow26_mono(hi - lo, MAX_COL_LETTERS as int);
        lemma_pow26_values();
        assert(pow26(MAX_COL_LETTERS as int) == 308915776);
    }
    Some(idx)
}

/// The letter name of column index `n`, or nothing for index 0, which names
/// no column.
pub fn index_to_letters(n: usize) -> (r: Option<String>)
    ensures
        r is Some <==> n >= 1,
        r matches Some(s) ==> s@ == spec_index_to_letters(n as int),
{
    if n == 0 {
        return None;
    }
    let v = index_to_letters_rec(n);
    Some(chars_string(&v))
}

fn index_to_letters_rec(n: usize) -> (r: Vec<char>)
    ensures
        r@ == spec_index_to_letters(n as int),
    decreases n,
{
    if n == 0 {
        let r: Vec<char> = Vec::new();
        proof {
            assert(r@ =~= spec_index_to_letters(0));
        }
        r
    } else {
        let q = (n - 1) / 26;
        let rem = (n - 1) % 26;
        let mut r = index_to_letters_rec(q);
        let c = (65u8 + rem as u8) as char;
        r.push(c);
        proof {
            assert(c == letter_of(rem as int));
            assert(r@ =~= spec_index_to_letters(q as int) + seq![letter_of(rem as int)]);
        }
        r
    }
}

/// Position of the leftmost `:` in `v` at or past `from`, exactly
/// [`find_colon_from`].
fn find_colon(v: &Vec<char>, from: usize) -> (r: Option<usize>)
    requires
        from <= v@.len(),
    ensures
        r is Some <==> find_colon_from(v@, from as int) is Some,
        r matches Some(p) ==> from <= p < v@.len() && find_colon_from(v@, from as int) == Some(
            p as int,
        ),
{
    let n = v.len();
    let mut i: usize = from;
    while i < n
        invariant
            from <= i <= n,
            n == v@.len(),
            find_colon_from(v@, from as int) == find_colon_from(v@, i as int),
        decreases n - i,
    {
        if v[i] == ':' {
            return Some(i);
        }
        i = i + 1;
    }
    None
}

/// The leftmost cell reference in `v[lo .. hi]`, parsed as by
/// [`spec_rangify`] on that slice.
pub fn rangify_chars(v: &Vec<char>, lo: usize, hi: usize) -> (r: Option<(usize, usize)>)
    requires
        lo <= hi <= v@.len(),
    ensures
        r is Some <==> spec_rangify(v@.subrange(lo as int, hi as int)) is Some,
        r matches Some(p) ==> spec_rangify(v@.subrange(lo as int, hi as int)) == Some(
            (p.0 as int, p.1 as int),
        ) && p.0 <= 999999999 && p.1 <= 617831550,
{
    let ghost s = v@.subrange(lo as int, hi as int);
    proof {
        assert(forall|k: int| 0 <= k < s.len() ==> #[trigger] s[k] == v@[k + lo]);
    }
    let mut i: usize = lo;
    while i < hi
        invariant
            lo <= i <= hi <= v@.len(),
            s == v@.subrange(lo as int, hi as int),
            find_ref_from(s, 0) == find_ref_from(s, i - lo),
        decreases hi - i,
    {
        let c = v[i];
        if 'A' <= c && c <= 'Z' {
            // Measure the letter run, then require a digit after it.
            let mut j: usize = i + 1;
            while j < hi && 'A' <= v[j] && v[j] <= 'Z'
                invariant
                    lo <= i < j <= hi <= v@.len(),
                    s == v@.subrange(lo as int, hi as int),
                    forall|k: int| i <= k < j ==> is_col_letter(#[trigger] v@[k]),
                    letter_run(s, i - lo) == j - i + letter_run(s, j - lo),
                decreases hi - j,
            {
                proof {
                    assert(s[j - lo] == v@[j as int]);
                    assert(letter_run(s, j - lo) == 1 + letter_run(s, j + 1 - lo));
                }
                j = j + 1;
            }
            proof {
                if j < hi {
                    assert(s[j - lo] == v@[j as int]);
                }
                assert(letter_run(s, (j - lo) as int) == 0);
                assert(letter_run(s, (i - lo) as int) == j - i);
            }
            if j < hi && '0' <= v[j] && v[j] <= '9' {
                proof {
                    assert(s[j - lo] == v@[j as int]);
                    assert(ref_match_at(s, (i - lo) as int));
                    assert(find_ref_from(s, 0) == Some((i - lo) as int));
                }
                // The reference starts here; read the digit run.
                let mut k: usize = j;
                while k < hi && '0' <= v[k] && v[k] <= '9'
                    invariant
                        lo <= j <= k <= hi <= v@.len(),
                        s == v@.subrange(lo as int, hi as int),
                        forall|m: int| j <= m < k ==> is_digit_char(#[trigger] v@[m]),
                        digit_run(s, j - lo) == k - j + digit_run(s, k - lo),
                    decreases hi - k,
                {
                    proof {
                        assert(s[k - lo] == v@[k as int]);
                        assert(digit_run(s, k - lo) == 1 + digit_run(s, k + 1 - lo));
                    }
                    k = k + 1;
                }
                proof {
                    if k < hi {
                        assert(s[k - lo] == v@[k as int]);
                    }
                    assert(digit_run(s, (k - lo) as int) == 0);
                    assert(digit_run(s, (j - lo) as int) == k - j);
                }
                if j - i > MAX_COL_LETTERS || k - j > MAX_ROW_DIGITS {
                    return None;
                }
                let col = match letters_to_index_chars(v, i, j) {
                    Some(x) => x,
                    None => {
                        proof {
                            assert(v@.subrange(i as int, j as int) =~= s.subrange(
                                i - lo,
                                j - lo,
                            ));
                            assert(false);
                        }
                        return None;
                    },
                };
                let row = parse_row_digits(v, j, k);
                proof {
                    assert(v@.subrange(i as int, j as int) =~= s.subrange(i - lo, j - lo));
                    assert(v@.subrange(j as int, k as int) =~= s.subrange(j - lo, k - lo));
                    lemma_pow10_mono((k - j) as int, MAX_ROW_DIGITS as int);
                    lemma_pow10_values();
                    assert(pow10(MAX_ROW_DIGITS as int) == 1000000000);
                    lemma_digits_val_bound(
                        v@.subrange(j as int, k as int),
                        pow10(MAX_ROW_DIGITS as int),
                    );
                }
                return Some((row, col));
            }
            // A letter run without a following digit matches nowhere inside
            // the run, so the scan may move one position at a time.
            proof {
                assert(!ref_match_at(s, i - lo));
            }
        } else {
            proof {
                assert(s[i - lo] == v@[i as int]);
                assert(!ref_match_at(s, i - lo));
            }
        }
        i = i + 1;
    }
    proof {
        assert(find_ref_from(s, (i - lo) as int) is None);
    }
    None
}

/// The number written by the digits `v[lo .. hi]`.
fn parse_row_digits(v: &Vec<char>, lo: usize, hi: usize) -> (r: usize)
    requires
        lo <= hi <= v@.len(),
        hi - lo <= MAX_ROW_DIGITS,
        forall|k: int| lo <= k < hi ==> is_digit_char(#[trigger] v@[k]),
    ensures
        r == digits_val(v@.subrange(lo as int, hi as int)),
{
    let ghost s = v@.subrange(lo as int, hi as int);
    let mut r: usize = 0;
    let mut i: usize = lo;
    while i < hi
        invariant
            lo <= i <= hi <= v@.len(),
            hi - lo <= MAX_ROW_DIGITS,
            s == v@.subrange(lo as int, hi as int),
            forall|k: int| lo <= k < hi ==> is_digit_char(#[trigger] v@[k]),
            r == digits_val(s.subrange(0, i - lo)),
            r <= pow10(i - lo) - 1,
        decreases hi - i,
    {
        proof {
            lemma_pow10_mono(i - lo, MAX_ROW_DIGITS - 1);
            lemma_pow10_values();
            assert(pow10(MAX_ROW_DIGITS - 1) == 100000000);
            assert(r * 10 + 9 <= pow10(i + 1 - lo) - 1) by (nonlinear_arith)
                requires
                    0 <= r <= pow10(i - lo) - 1,
                    pow10(i + 1 - lo) == 10 * pow10(i - lo),
            ;
            assert(r * 10 <= (100000000 - 1) * 10) by (nonlinear_arith)
                requires
                    0 <= r <= 100000000 - 1,
            ;
        }
        let c = v[i];
        let d: usize = (c as u32 as usize) - 48;
        r = r * 10 + d;
        i = i + 1;
        proof {
            assert(s.subrange(0, i - lo).drop_last() =~= s.subrange(0, i - 1 - lo));
            assert(s.subrange(0, i - lo).last() == v@[i - 1]);
        }
    }
    proof {
        assert(s.subrange(0, (hi - lo) as int) =~= s);
    }
    r
}

/// The `(rows, cols)` dimension declared by the range string `s`, exactly
/// [`spec_dimension`] of its characters.
pub fn parse_dimension(s: &str) -> (r: Option<(usize, usize)>)
    ensures
        r is Some <==> spec_dimension(s@) is Some,
        r matches Some(p) ==> spec_dimension(s@) == Some((p.0 as int, p.1 as int)),
{
    let v = str_chars(s);
    let n = v.len();
    let p = match find_colon(&v, 0) {
        Some(p) => p,
        None => {
            return None;
        },
    };
    if p + 1 == n {
        return None;
    }
    let q = match find_colon(&v, p + 1) {
        Some(q) => q,
        None => n,
    };
    let start = match rangify_chars(&v, 0, p) {
        Some(x) => x,
        None => {
            return None;
        },
    };
    let end = match rangify_chars(&v, p + 1, q) {
        Some(x) => x,
        None => {
            return None;
        },
    };
    if end.0 >= start.0 && end.1 >= start.1 {
        Some((end.0 - start.0 + 1, end.1 - start.1 + 1))
    } else {
        None
    }
}

} // verus!
