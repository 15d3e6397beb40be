//! Number-format codes: the date/time signature test and the translation of
//! a format code into a strftime-style display template.
//!
//! The translation is an ordered, non-commutative chain of textual
//! substitutions; a later rule must never re-match text produced by an
//! earlier one, so the order below is part of the observable behaviour and
//! is preserved exactly. Three rewriting primitives cover all rules: literal
//! replacement, replacement of maximal character runs of a least length,
//! and the guarded single-`m` rule, which only fires where the `m` is not
//! already preceded by a `%`.

use vstd::prelude::*;

use crate::chars::{append_all, append_range, copy_range, match_at, vec1, vec2, vec3};

verus! {

// ---------------------------------------------------------------------------
// Date/time signature
// ---------------------------------------------------------------------------
/// A letter whose bare occurrence marks a date/time format code.
pub open spec fn is_dt_letter(c: char) -> bool {
    c == 'y' || c == 'm' || c == 'd' || c == 'h'
}

/// Two equal adjacent characters `c` occur somewhere in `s`.
pub open spec fn has_pair(s: Seq<char>, c: char) -> bool {
    exists|i: int| 0 <= i && i + 1 < s.len() && s[i] == c && #[trigger] s[i + 1] == c
}

/// The code reads as a date/time format: it holds a year, month, day or
/// hour letter, a seconds pair `ss`, or a weekday pair `aa`.
pub open spec fn spec_is_datetime_code(s: Seq<char>) -> bool {
    (exists|i: int| 0 <= i < s.len() && is_dt_letter(#[trigger] s[i])) || has_pair(s, 's')
        || has_pair(s, 'a')
}

/// The code ends with the locale suffix marker `;@`.
pub open spec fn ends_locale(s: Seq<char>) -> bool {
    s.len() >= 2 && s[s.len() - 2] == ';' && s[s.len() - 1] == '@'
}

/// The code with every trailing `;@` marker removed.
pub open spec fn spec_trim_locale(s: Seq<char>) -> Seq<char>
    decreases s.len(),
{
    if ends_locale(s) {
        spec_trim_locale(s.take(s.len() - 2))
    } else {
        s
    }
}

/// Whether the code reads as a date/time format, exactly
/// [`spec_is_datetime_code`].
pub fn is_datetime_code(s: &Vec<char>) -> (r: bool)
    ensures
        r == spec_is_datetime_code(s@),
{
    let n = s.len();
    let mut i: usize = 0;
    while i < n
        invariant
            i <= n,
            n == s@.len(),
            forall|j: int| 0 <= j < i ==> !is_dt_letter(#[trigger] s@[j]),
            forall|j: int|
                0 <= j < i && j + 1 < n ==> !(s@[j] == 's' && #[trigger] s@[j + 1] == 's'),
            forall|j: int|
                0 <= j < i && j + 1 < n ==> !(s@[j] == 'a' && #[trigger] s@[j + 1] == 'a'),
        decreases n - i,
    {
        let c = s[i];
        if c == 'y' || c == 'm' || c == 'd' || c == 'h' {
            return true;
        }
        if (c == 's' || c == 'a') && i + 1 < n && s[i + 1] == c {
            return true;
        }
        i = i + 1;
    }
    proof {
        assert forall|j: int| 0 <= j && j + 1 < s@.len() implies !(s@[j] == 's' && #[trigger] s@[j
            + 1] == 's') by {
            assert(!is_dt_letter(s@[j]) || true);
        }
    }
    false
}

/// Whether the code ends with `;@`, exactly [`ends_locale`].
pub fn ends_with_locale(s: &Vec<char>) -> (r: bool)
    ensures
        r == ends_locale(s@),
{
    let n = s.len();
    n >= 2 && s[n - 2] == ';' && s[n - 1] == '@'
}

/// The code with every trailing `;@` removed, exactly [`spec_trim_locale`].
pub fn trim_locale(s: &Vec<char>) -> (r: Vec<char>)
    ensures
        r@ == spec_trim_locale(s@),
{
    let mut end = s.len();
    proof {
        assert(s@.take(end as int) =~= s@);
    }
    while end >= 2 && s[end - 2] == ';' && s[end - 1] == '@'
        invariant
            end <= s@.len(),
            spec_trim_locale(s@) == spec_trim_locale(s@.take(end as int)),
        decreases end,
    {
        proof {
            let t = s@.take(end as int);
            assert(t[end - 2] == s@[end - 2] && t[end - 1] == s@[end - 1]);
            assert(ends_locale(t));
            assert(t.take(t.len() - 2) =~= s@.take(end - 2));
        }
        end = end - 2;
    }
    proof {
        assert(!ends_locale(s@.take(end as int)));
    }
    copy_range(s, 0, end)
}

// ---------------------------------------------------------------------------
// Literal replacement
// ---------------------------------------------------------------------------
/// Every non-overlapping occurrence of `pat` in `s`, found left to right,
/// replaced by `rep`; the replacements themselves are never re-examined.
pub open spec fn spec_replace_lit(s: Seq<char>, pat: Seq<char>, rep: Seq<char>) -> Seq<char>
    decreases s.len(),
{
    if pat.len() == 0 || s.len() < pat.len() {
        s
    } else if s.subrange(0, pat.len() as int) == pat {
        rep + spec_replace_lit(s.skip(pat.len() as int), pat, rep)
    } else {
        seq![s[0]] + spec_replace_lit(s.skip(1), pat, rep)
    }
}

/// Exactly [`spec_replace_lit`].
pub fn replace_lit(s: &Vec<char>, pat: &Vec<char>, rep: &Vec<char>) -> (r: Vec<char>)
    requires
        pat@.len() >= 1,
    ensures
        r@ == spec_replace_lit(s@, pat@, rep@),
{
    let n = s.len();
    let plen = pat.len();
    let mut out: Vec<char> = Vec::new();
    let mut i: usize = 0;
    proof {
        assert(s@.skip(0) =~= s@);
    }
    while i < n
        invariant
            i <= n,
            n == s@.len(),
            plen == pat@.len(),
            1 <= plen,
            spec_replace_lit(s@, pat@, rep@) == out@ + spec_replace_lit(
                s@.skip(i as int),
                pat@,
                rep@,
            ),
        decreases n - i,
    {
        let ghost t = s@.skip(i as int);
        if plen <= n - i && match_at(s, i, pat) {
            proof {
                assert(t.subrange(0, plen as int) =~= s@.subrange(i as int, i + plen));
                assert(spec_replace_lit(t, pat@, rep@) == rep@ + spec_replace_lit(
                    t.skip(plen as int),
                    pat@,
                    rep@,
                ));
                assert(t.skip(plen as int) =~= s@.skip(i + plen));
            }
            append_all(&mut out, rep);
            i = i + plen;
            proof {
                assert(spec_replace_lit(s@, pat@, rep@) == out@ + spec_replace_lit(
                    s@.skip(i as int),
                    pat@,
                    rep@,
                ));
            }
        } else {
            proof {
                if t.len() >= plen {
                    assert(t.subrange(0, plen as int) =~= s@.subrange(i as int, i + plen));
                    assert(spec_replace_lit(t, pat@, rep@) == seq![t[0]] + spec_replace_lit(
                        t.skip(1),
                        pat@,
                        rep@,
                    ));
                } else {
                    assert(spec_replace_lit(t, pat@, rep@) == t);
                    assert(t == seq![t[0]] + t.skip(1)) by {
                        assert(t =~= seq![t[0]] + t.skip(1));
                    }
                    assert(t.skip(1).len() < plen);
                    assert(spec_replace_lit(t.skip(1), pat@, rep@) == t.skip(1));
                }
                assert(t[0] == s@[i as int]);
                assert(t.skip(1) =~= s@.skip(i + 1));
            }
            out.push(s[i]);
            i = i + 1;
            proof {
                assert(spec_replace_lit(s@, pat@, rep@) == out@ + spec_replace_lit(
                    s@.skip(i as int),
                    pat@,
                    rep@,
                ));
            }
        }
    }
    proof {
        assert(s@.skip(n as int) =~= Seq::<char>::empty());
        assert(spec_replace_lit(Seq::<char>::empty(), pat@, rep@) =~= Seq::<char>::empty());
        assert(out@ + Seq::<char>::empty() =~= out@);
    }
    out
}

// ---------------------------------------------------------------------------
// Run replacement
// ---------------------------------------------------------------------------
/// Length of the run of `c` at the head of `s`.
pub open spec fn run_len(s: Seq<char>, c: char) -> int
    decreases s.len(),
{
    if s.len() == 0 || s[0] != c {
        0
    } else {
        1 + run_len(s.skip(1), c)
    }
}

pub proof fn lemma_run_len_bounds(s: Seq<char>, c: char)
    ensures
        0 <= run_len(s, c) <= s.len(),
    decreases s.len(),
{
    if s.len() > 0 && s[0] == c {
        lemma_run_len_bounds(s.skip(1), c);
    }
}

/// The head run of `c` in `s` has length `k`: `k` copies of `c`, then
/// either the end or another character.
pub proof fn lemma_run_len_eq(s: Seq<char>, c: char, k: int)
    requires
        0 <= k <= s.len(),
        forall|m: int| 0 <= m < k ==> s[m] == c,
        k < s.len() ==> s[k] != c,
    ensures
        run_len(s, c) == k,
    decreases k,
{
    if k == 0 {
    } else {
        assert(s[0] == c);
        lemma_run_len_eq(s.skip(1), c, k - 1);
    }
}

/// Every maximal run of `c` in `s` of length at least `n` replaced by
/// `rep`; shorter runs and other characters are kept.
pub open spec fn spec_replace_run(s: Seq<char>, c: char, n: int, rep: Seq<char>) -> Seq<char>
    decreases s.len(),
{
    if s.len() == 0 {
        s
    } else if s[0] == c {
        proof {
            lemma_run_len_bounds(s, c);
            lemma_run_len_bounds(s.skip(1), c);
            assert(run_len(s, c) == 1 + run_len(s.skip(1), c));
        }
        let k = run_len(s, c);
        (if k >= n {
            rep
        } else {
            s.take(k)
        }) + spec_replace_run(s.skip(k), c, n, rep)
    } else {
        seq![s[0]] + spec_replace_run(s.skip(1), c, n, rep)
    }
}

/// Exactly [`spec_replace_run`].
pub fn replace_run(s: &Vec<char>, c: char, n: usize, rep: &Vec<char>) -> (r: Vec<char>)
    requires
        n >= 1,
    ensures
        r@ == spec_replace_run(s@, c, n as int, rep@),
{
    let len = s.len();
    let mut out: Vec<char> = Vec::new();
    let mut i: usize = 0;
    proof {
        assert(s@.skip(0) =~= s@);
    }
    while i < len
        invariant
            i <= len,
            len == s@.len(),
            spec_replace_run(s@, c, n as int, rep@) == out@ + spec_replace_run(
                s@.skip(i as int),
                c,
                n as int,
                rep@,
            ),
        decreases len - i,
    {
        let ghost t = s@.skip(i as int);
        if s[i] == c {
            // Measure the run.
            let mut j: usize = i + 1;
            while j < len && s[j] == c
                invariant
                    i < j <= len,
                    len == s@.len(),
                    forall|m: int| i <= m < j ==> s@[m] == c,
                decreases len - j,
            {
                j = j + 1;
            }
            proof {
                assert(forall|m: int| 0 <= m < j - i ==> t[m] == c);
                if j - i < t.len() {
                    assert(t[j - i] == s@[j as int]);
                }
                lemma_run_len_eq(t, c, j - i);
                assert(spec_replace_run(t, c, n as int, rep@) == (if j - i >= n {
                    rep@
                } else {
                    t.take(j - i)
                }) + spec_replace_run(t.skip(j - i), c, n as int, rep@));
                assert(t.skip(j - i) =~= s@.skip(j as int));
                assert(t.take(j - i) =~= s@.subrange(i as int, j as int));
            }
            if j - i >= n {
                append_all(&mut out, rep);
            } else {
                append_range(&mut out, s, i, j);
            }
            i = j;
            proof {
                assert(spec_replace_run(s@, c, n as int, rep@) == out@ + spec_replace_run(
                    s@.skip(i as int),
                    c,
                    n as int,
                    rep@,
                ));
            }
        } else {
            proof {
                assert(t[0] == s@[i as int]);
                assert(spec_replace_run(t, c, n as int, rep@) == seq![t[0]] + spec_replace_run(
                    t.skip(1),
                    c,
                    n as int,
                    rep@,
                ));
                assert(t.skip(1) =~= s@.skip(i + 1));
            }
            out.push(s[i]);
            i = i + 1;
            proof {
                assert(spec_replace_run(s@, c, n as int, rep@) == out@ + spec_replace_run(
                    s@.skip(i as int),
                    c,
                    n as int,
                    rep@,
                ));
            }
        }
    }
    proof {
        assert(s@.skip(len as int) =~= Seq::<char>::empty());
        assert(out@ + Seq::<char>::empty() =~= out@);
    }
    out
}

// ---------------------------------------------------------------------------
// Guarded single-m replacement
// ---------------------------------------------------------------------------
/// The guarded single-`m` rule away from the start of the string: an `m`
/// preceded by anything but `%` becomes `%m`, keeping the preceding
/// character; matches are found left to right and not re-examined.
pub open spec fn spec_guard_m_tail(s: Seq<char>) -> Seq<char>
    decreases s.len(),
{
    if s.len() < 2 {
        s
    } else if s[0] != '%' && s[1] == 'm' {
        seq![s[0], '%', 'm'] + spec_guard_m_tail(s.skip(2))
    } else {
        seq![s[0]] + spec_guard_m_tail(s.skip(1))
    }
}

/// The guarded single-`m` rule over the whole string: as
/// [`spec_guard_m_tail`], except that an `m` at the very start (with no
/// preceding character) also becomes `%m`.
pub open spec fn spec_guard_m(s: Seq<char>) -> Seq<char> {
    if s.len() >= 2 && s[0] != '%' && s[1] == 'm' {
        seq![s[0], '%', 'm'] + spec_guard_m_tail(s.skip(2))
    } else if s.len() >= 1 && s[0] == 'm' {
        seq!['%', 'm'] + spec_guard_m_tail(s.skip(1))
    } else {
        spec_guard_m_tail(s)
    }
}

/// Exactly [`spec_guard_m`].
pub fn guard_m(s: &Vec<char>) -> (r: Vec<char>)
    ensures
        r@ == spec_guard_m(s@),
{
    let n = s.len();
    let mut out: Vec<char> = Vec::new();
    let mut i: usize = 0;
    if n >= 2 && s[0] != '%' && s[1] == 'm' {
        out.push(s[0]);
        out.push('%');
        out.push('m');
        i = 2;
        proof {
            assert(out@ =~= seq![s@[0], '%', 'm']);
        }
    } else if n >= 1 && s[0] == 'm' {
        out.push('%');
        out.push('m');
        i = 1;
        proof {
            assert(out@ =~= seq!['%', 'm']);
        }
    } else {
        proof {
            assert(s@.skip(0) =~= s@);
        }
    }
    proof {
        assert(spec_guard_m(s@) == out@ + spec_guard_m_tail(s@.skip(i as int)));
    }
    while i < n
        invariant
            i <= n,
            n == s@.len(),
            spec_guard_m(s@) == out@ + spec_guard_m_tail(s@.skip(i as int)),
        decreases n - i,
    {
        let ghost t = s@.skip(i as int);
        if s[i] != '%' && i + 1 < n && s[i + 1] == 'm' {
            proof {
                assert(t[0] == s@[i as int] && t[1] == s@[i + 1]);
                assert(spec_guard_m_tail(t) == seq![t[0], '%', 'm'] + spec_guard_m_tail(
                    t.skip(2),
                ));
                assert(t.skip(2) =~= s@.skip(i + 2));
            }
            out.push(s[i]);
            out.push('%');
            out.push('m');
            i = i + 2;
            proof {
                assert(spec_guard_m(s@) == out@ + spec_guard_m_tail(s@.skip(i as int)));
            }
        } else {
            proof {
                assert(t[0] == s@[i as int]);
                if t.len() >= 2 {
                    assert(t[1] == s@[i + 1]);
                    assert(spec_guard_m_tail(t) == seq![t[0]] + spec_guard_m_tail(t.skip(1)));
                } else {
                    assert(spec_guard_m_tail(t) == t);
                    assert(t =~= seq![t[0]] + t.skip(1));
                    assert(spec_guard_m_tail(t.skip(1)) == t.skip(1));
                }
                assert(t.skip(1) =~= s@.skip(i + 1));
            }
            out.push(s[i]);
            i = i + 1;
            proof {
                assert(spec_guard_m(s@) == out@ + spec_guard_m_tail(s@.skip(i as int)));
            }
        }
    }
    proof {
        assert(s@.skip(n as int) =~= Seq::<char>::empty());
        assert(out@ + Seq::<char>::empty() =~= out@);
    }
    out
}

// ---------------------------------------------------------------------------
// The translation chain
// ---------------------------------------------------------------------------
/// The full, ordered substitution chain turning a date/time format code
/// into a strftime-style display template: colon-adjacent minute pairs
/// first, then the remaining month pairs, year runs, long month names, the
/// guarded single month letter, day runs, weekday runs and pairs, hours,
/// seconds, and finally the removal of backslash escape markers.
pub open spec fn spec_translate(s: Seq<char>) -> Seq<char> {
    let s1 = spec_replace_lit(s, seq![':', 'm', 'm'], seq![':', '%', 'M']);
    let s2 = spec_replace_lit(s1, seq!['m', 'm', ':'], seq!['%', 'M', ':']);
    let s3 = spec_replace_lit(s2, seq!['m', 'm'], seq!['%', 'm']);
    let s4 = spec_replace_run(s3, 'y', 4, seq!['%', 'Y']);
    let s5 = spec_replace_run(s4, 'y', 2, seq!['%', 'y']);
    let s6 = spec_replace_run(s5, 'm', 4, seq!['%', 'B']);
    let s7 = spec_replace_lit(s6, seq!['m', 'm', 'm'], seq!['%', 'b']);
    let s8 = spec_guard_m(s7);
    let s9 = spec_replace_run(s8, 'd', 1, seq!['%', 'd']);
    let s10 = spec_replace_run(s9, 'a', 4, seq!['%', 'A']);
    let s11 = spec_replace_lit(s10, seq!['a', 'a', 'a'], seq!['%', 'a']);
    let s12 = spec_replace_lit(s11, seq!['a', 'a'], seq!['%', 'w']);
    let s13 = spec_replace_lit(s12, seq!['h'], seq!['%', 'H']);
    let s14 = spec_replace_lit(s13, seq!['s', 's'], seq!['%', 'S']);
    spec_replace_lit(s14, seq!['\\'], Seq::empty())
}

/// Exactly [`spec_translate`].
pub fn translate_code(s: &Vec<char>) -> (r: Vec<char>)
    ensures
        r@ == spec_translate(s@),
{
    let s1 = replace_lit(s, &vec3(':', 'm', 'm'), &vec3(':', '%', 'M'));
    let s2 = replace_lit(&s1, &vec3('m', 'm', ':'), &vec3('%', 'M', ':'));
    let s3 = replace_lit(&s2, &vec2('m', 'm'), &vec2('%', 'm'));
    let s4 = replace_run(&s3, 'y', 4, &vec2('%', 'Y'));
    let s5 = replace_run(&s4, 'y', 2, &vec2('%', 'y'));
    let s6 = replace_run(&s5, 'm', 4, &vec2('%', 'B'));
    let s7 = replace_lit(&s6, &vec3('m', 'm', 'm'), &vec2('%', 'b'));
    let s8 = guard_m(&s7);
    let s9 = replace_run(&s8, 'd', 1, &vec2('%', 'd'));
    let s10 = replace_run(&s9, 'a', 4, &vec2('%', 'A'));
    let s11 = replace_lit(&s10, &vec3('a', 'a', 'a'), &vec2('%', 'a'));
    let s12 = replace_lit(&s11, &vec2('a', 'a'), &vec2('%', 'w'));
    let s13 = replace_lit(&s12, &vec1('h'), &vec2('%', 'H'));
    let s14 = replace_lit(&s13, &vec2('s', 's'), &vec2('%', 'S'));
    let empty: Vec<char> = Vec::new();
    let r = replace_lit(&s14, &vec1('\\'), &empty);
    proof {
        assert(empty@ =~= Seq::<char>::empty());
    }
    r
}

} // verus!
