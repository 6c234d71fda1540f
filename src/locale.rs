use crate::context::WebContext;
use std::fmt::Write;
use vstd::prelude::*;
use vstd::string::*;

verus! {

/// Locales for formatting dates, a taxonomy apart from language tags.
#[derive(Clone, Copy, PartialEq, Eq, Structural, Debug)]
pub enum FormatLocale {
    EnUs,
    FrFr,
}

/// A moment in time with the UTC offset it is shown in.
#[derive(Clone, Copy, PartialEq, Eq, Structural, Debug)]
pub struct ZonedInstant {
    /// Seconds since the Unix epoch.
    pub timestamp: i64,
    /// Seconds east of UTC.
    pub utc_offset: i32,
}

/// The formatting locale of a language tag; unknown tags format as US
/// English.
pub open spec fn locale_for(lang: Seq<char>) -> FormatLocale {
    if lang == "fr"@ {
        FormatLocale::FrFr
    } else {
        FormatLocale::EnUs
    }
}

/// Whether a language tag has a formatting locale of its own.
pub open spec fn has_locale(lang: Seq<char>) -> bool {
    lang == "en"@ || lang == "fr"@
}

/// Maps a language tag to its formatting locale, and says whether the tag
/// was recognized (an unrecognized one falls back and deserves a warning).
pub fn format_locale(lang: &String) -> (r: (FormatLocale, bool))
    ensures
        r.0 == locale_for(lang@),
        r.1 == has_locale(lang@),
{
    let en = String::from_str("en");
    let fr = String::from_str("fr");
    proof {
        reveal_strlit("en");
        reveal_strlit("fr");
        assert("en"@[0] != "fr"@[0]);
    }
    if *lang == en {
        (FormatLocale::EnUs, true)
    } else if *lang == fr {
        (FormatLocale::FrFr, true)
    } else {
        (FormatLocale::EnUs, false)
    }
}

/// The text a date formatter makes of an instant, a format string and a
/// locale; `None` where the instant is out of its range or the format
/// string is not valid.
pub uninterp spec fn localized_text(
    timestamp: int,
    utc_offset: int,
    fmt: Seq<char>,
    locale: FormatLocale,
) -> Option<Seq<char>>;

/// Relies on chrono's `FixedOffset::east_opt`, `DateTime::from_timestamp`
/// and `DateTime::format_localized`: text that depends on the arguments
/// alone, and an error rather than a panic on an invalid format.
#[verifier::external_body]
fn chrono_format(instant: ZonedInstant, fmt: &str, locale: FormatLocale) -> (r: Option<String>)
    ensures
        r matches Some(s) ==> localized_text(
            instant.timestamp as int,
            instant.utc_offset as int,
            fmt@,
            locale,
        ) == Some(s@),
        r is None ==> localized_text(
            instant.timestamp as int,
            instant.utc_offset as int,
            fmt@,
            locale,
        ) is None,
{
    let locale = match locale {
        FormatLocale::EnUs => chrono::Locale::en_US,
        FormatLocale::FrFr => chrono::Locale::fr_FR,
    };
    let tz = chrono::FixedOffset::east_opt(instant.utc_offset)?;
    let dt = chrono::DateTime::from_timestamp(instant.timestamp, 0)?.with_timezone(&tz);
    let mut out = String::new();
    write!(out, "{}", dt.format_localized(fmt, locale)).ok()?;
    Some(out)
}

/// The text shown for a formatted instant: the formatter's text, or
/// nothing where it has none.
pub open spec fn shown(text: Option<Seq<char>>) -> Seq<char> {
    match text {
        Some(s) => s,
        None => Seq::empty(),
    }
}

impl WebContext {
    /// Formats an instant for display in the context's language.
    pub fn format_localized(&self, dt: &ZonedInstant, fmt: &str) -> (r: String)
        ensures
            r@ == shown(
                localized_text(
                    dt.timestamp as int,
                    dt.utc_offset as int,
                    fmt@,
                    locale_for(self.lang@),
                ),
            ),
    {
        let (locale, _) = format_locale(&self.lang);
        match chrono_format(*dt, fmt, locale) {
            Some(s) => s,
            None => String::new(),
        }
    }
}

} // verus!
