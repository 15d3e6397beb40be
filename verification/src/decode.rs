//! The number-format decoder: from a raw cell text and an optional
//! number-format code to a resolved [`CellValue`].
//!
//! Without a format code, or under the literal `General` code, the raw text
//! passes through. A code bearing the date/time signature has its trailing
//! locale marker trimmed, its quoting unescaped and its tokens translated
//! into a display template, while the raw text is read as a serial day
//! number; the two make a `DateTime` value. Any other code is an
//! unsupported numeric format and degrades to the literal text.

use vstd::prelude::*;

use crate::cell::{CellValue, SpecCellValue};
use crate::chars::{chars_string, str_chars, str_eq};
use crate::error::SheetError;
use crate::numfmt::{
    ends_locale, ends_with_locale, is_datetime_code, spec_is_datetime_code, spec_translate,
    spec_trim_locale, translate_code, trim_locale,
};
use crate::serial::{parse_serial, spec_serial_ts};

verus! {

/// What snailquote's unescape returns for a string, the string itself where
/// unescape rejects it; a function of the string alone.
pub uninterp spec fn unquoted_of(s: Seq<char>) -> Seq<char>;

/// The string holds no quote character, so unescaping leaves it alone.
pub open spec fn quote_free(s: Seq<char>) -> bool {
    forall|i: int| 0 <= i < s.len() ==> #[trigger] s[i] != '\'' && s[i] != '"'
}

/// Relies on snailquote's `unescape`: shell-like quoting is removed, double
///-quoted escapes are decoded. Its result depends on the input alone, and
/// its source returns a string with no quote character unchanged (outside
/// quotes every character, a backslash included, is copied through); where
/// it rejects the input, the input itself is kept.
#[verifier::external_body]
fn unquote_code(s: &str) -> (r: String)
    ensures
        r@ == unquoted_of(s@),
        quote_free(s@) ==> r@ == s@,
{
    match snailquote::unescape(s) {
        Ok(t) => t,
        Err(_) => s.to_string(),
    }
}

/// The view of an optional borrowed string.
pub open spec fn opt_str_view(o: Option<&str>) -> Option<Seq<char>> {
    match o {
        Some(s) => Some(s@),
        None => None,
    }
}

/// The decoded value for a raw cell text under an optional format code.
/// Text passes through without a code, under `General`, and under any code
/// without the date/time signature; a date/time code yields the timestamp
/// parsed from the raw text and the translated display template, or the
/// parse failure.
pub open spec fn spec_decode(raw: Seq<char>, code: Option<Seq<char>>) -> Result<
    SpecCellValue,
    SheetError,
> {
    match code {
        None => Ok(SpecCellValue::Text(raw)),
        Some(c) => {
            if c == "General"@ {
                Ok(SpecCellValue::Text(raw))
            } else if spec_is_datetime_code(c) || ends_locale(c) {
                let tpl = spec_translate(unquoted_of(spec_trim_locale(c)));
                match spec_serial_ts(raw) {
                    None => Err(SheetError::DateTimeParseError),
                    Some((secs, nanos)) => Ok(SpecCellValue::DateTime(secs, nanos, tpl)),
                }
            } else {
                Ok(SpecCellValue::Text(raw))
            }
        },
    }
}

/// Trimming the locale suffix only shortens the code, so a quote-free code
/// stays quote-free.
pub proof fn lemma_trim_locale_quote_free(s: Seq<char>)
    requires
        quote_free(s),
    ensures
        quote_free(spec_trim_locale(s)),
    decreases s.len(),
{
    if ends_locale(s) {
        let t = s.take(s.len() - 2);
        assert(forall|i: int| 0 <= i < t.len() ==> #[trigger] t[i] == s[i]);
        lemma_trim_locale_quote_free(t);
    }
}

/// Whether a format code is an unhandled numeric format: neither the
/// literal `General` nor a code with the date/time signature. Such codes
/// degrade to literal text during resolution; a caller that reports
/// diagnostics tests for them here.
pub fn unhandled_format_code(code: &str) -> (r: bool)
    ensures
        r == (code@ != "General"@ && !spec_is_datetime_code(code@) && !ends_locale(code@)),
{
    if str_eq(code, "General") {
        return false;
    }
    let cv = str_chars(code);
    !(is_datetime_code(&cv) || ends_with_locale(&cv))
}

/// Decodes `raw` under the format code `code`, exactly [`spec_decode`].
/// For a quote-free date/time code the display template is moreover the
/// translation of the trimmed code itself, with no unescaping in between.
pub fn decode(raw: &str, code: Option<&str>) -> (r: Result<CellValue, SheetError>)
    ensures
        r matches Ok(v) ==> spec_decode(raw@, opt_str_view(code)) == Ok::<
            SpecCellValue,
            SheetError,
        >(v@),
        r matches Err(e) ==> spec_decode(raw@, opt_str_view(code)) == Err::<
            SpecCellValue,
            SheetError,
        >(e),
        (match (code, r) {
            (Some(c), Ok(CellValue::DateTime(secs, nanos, tpl))) => quote_free(c@) ==> tpl@
                == spec_translate(spec_trim_locale(c@)),
            _ => true,
        }),
{
    match code {
        None => Ok(CellValue::Text(raw.to_owned())),
        Some(c) => {
            if str_eq(c, "General") {
                return Ok(CellValue::Text(raw.to_owned()));
            }
            let cv = str_chars(c);
            if is_datetime_code(&cv) || ends_with_locale(&cv) {
                let trimmed = trim_locale(&cv);
                let tstr = chars_string(&trimmed);
                let unq = unquote_code(tstr.as_str());
                let uv = str_chars(unq.as_str());
                let tpl = translate_code(&uv);
                let rawv = str_chars(raw);
                proof {
                    if quote_free(c@) {
                        lemma_trim_locale_quote_free(c@);
                        assert(unq@ == tstr@);
                    }
                }
                match parse_serial(&rawv) {
                    None => Err(SheetError::DateTimeParseError),
                    Some((secs, nanos)) => Ok(
                        CellValue::DateTime(secs, nanos, chars_string(&tpl)),
                    ),
                }
            } else {
                Ok(CellValue::Text(raw.to_owned()))
            }
        },
    }
}

} // verus!
