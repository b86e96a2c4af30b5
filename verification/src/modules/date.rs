//! Date/time block through the `time` crate. The format description is parsed
//! once and reused. The crate only has English month names; for locale `ru`
//! the formatted text has the English long month name swapped for its Russian
//! genitive form, so the bar reads "26 июня", not "26 June".
use vstd::prelude::*;

use time::format_description::FormatDescriptionV3;

use crate::state::{is_plain_block, Block};
use crate::text::{find, find_chars, owned, replace, replace_str, str_eq, to_chars};

verus! {

#[verifier::external_type_specification]
#[verifier::external_body]
pub struct ExFormatDescriptionV3<'a>(FormatDescriptionV3<'a>);

/// A date-time as plain values: the calendar date, the wall-clock time and
/// the offset from UTC in seconds.
pub struct DateParts {
    pub year: i32,
    /// 1 for January.
    pub month: u8,
    pub day: u8,
    pub hour: u8,
    pub minute: u8,
    pub second: u8,
    pub nanosecond: u32,
    pub offset_seconds: i32,
}

impl View for DateParts {
    type V = (i32, u8, u8, u8, u8, u8, u32, i32);

    open spec fn view(&self) -> (i32, u8, u8, u8, u8, u8, u32, i32) {
        (
            self.year,
            self.month,
            self.day,
            self.hour,
            self.minute,
            self.second,
            self.nanosecond,
            self.offset_seconds,
        )
    }
}

/// A version 3 format description together with the source text it was
/// parsed from; only `parse_owned_v3` makes one.
pub struct DateFormat {
    src: String,
    items: FormatDescriptionV3<'static>,
}

impl View for DateFormat {
    type V = Seq<char>;

    /// The source text of the description.
    closed spec fn view(&self) -> Seq<char> {
        self.src@
    }
}

/// Whether `time::format_description::parse_owned::<3>` accepts a format
/// description.
pub uninterp spec fn format_parses(src: Seq<char>) -> bool;

/// What `time::OffsetDateTime::format` writes for the date-time with these
/// parts (year, month, day, hour, minute, second, nanosecond, UTC offset in
/// seconds) under the version 3 description parsed from `src`; nothing when
/// the parts are no valid date-time or formatting fails.
pub uninterp spec fn date_formatted(parts: (i32, u8, u8, u8, u8, u8, u32, i32), src: Seq<char>) -> Option<Seq<char>>;

/// `time::format_description::parse_owned::<3>`. Trusted: a description comes
/// back exactly when the source parses, which `format_parses` names, and it
/// is kept with its source text; what the description holds is opaque here.
#[verifier::external_body]
fn parse_owned_v3(src: &str) -> (r: Option<DateFormat>)
    ensures
        r is Some <==> format_parses(src@),
        r matches Some(f) ==> f@ == src@,
{
    match time::format_description::parse_owned::<3>(src) {
        Ok(items) => Some(DateFormat { src: src.to_owned(), items }),
        Err(_) => None,
    }
}

/// `time::OffsetDateTime::format`, on the date-time that
/// `OffsetDateTime::new_in_offset` makes of the parts (with
/// `Date::from_calendar_date`, `Time::from_hms_nano` and
/// `UtcOffset::from_whole_seconds`). Trusted: the result is what
/// `date_formatted` names for the parts and the description's source text
/// (the description is the one parsed from that text); nothing when a part is
/// out of range or formatting fails.
#[verifier::external_body]
fn format_with(parts: &DateParts, fmt: &DateFormat) -> (r: Option<String>)
    ensures
        match date_formatted(parts@, fmt@) {
            Some(t) => r matches Some(s) && s@ == t,
            None => r is None,
        },
{
    let month = time::Month::try_from(parts.month).ok()?;
    let date = time::Date::from_calendar_date(parts.year, month, parts.day).ok()?;
    let t = time::Time::from_hms_nano(parts.hour, parts.minute, parts.second, parts.nanosecond).ok()?;
    let offset = time::UtcOffset::from_whole_seconds(parts.offset_seconds).ok()?;
    time::OffsetDateTime::new_in_offset(date, t, offset).format(&fmt.items).ok()
}

/// The description to format with: the configured one when it parses, else
/// `[hour]:[minute]`. The flag tells whether the configured one was
/// rejected. Nothing only when even the fallback does not parse.
pub fn date_format(src: &str) -> (r: (Option<DateFormat>, bool))
    ensures
        r.1 == !format_parses(src@),
        format_parses(src@) ==> (r.0 matches Some(f) && f@ == src@),
        !format_parses(src@) ==> match r.0 {
            Some(f) => f@ == "[hour]:[minute]"@ && format_parses("[hour]:[minute]"@),
            None => !format_parses("[hour]:[minute]"@),
        },
{
    match parse_owned_v3(src) {
        Some(f) => (Some(f), false),
        None => (parse_owned_v3("[hour]:[minute]"), true),
    }
}

/// The English long month name of month `k` (0 for January).
pub open spec fn en_month(k: int) -> Seq<char> {
    if k == 0 {
        "January"@
    } else if k == 1 {
        "February"@
    } else if k == 2 {
        "March"@
    } else if k == 3 {
        "April"@
    } else if k == 4 {
        "May"@
    } else if k == 5 {
        "June"@
    } else if k == 6 {
        "July"@
    } else if k == 7 {
        "August"@
    } else if k == 8 {
        "September"@
    } else if k == 9 {
        "October"@
    } else if k == 10 {
        "November"@
    } else {
        "December"@
    }
}

/// The Russian genitive month name of month `k` (0 for January).
pub open spec fn ru_month(k: int) -> Seq<char> {
    if k == 0 {
        "января"@
    } else if k == 1 {
        "февраля"@
    } else if k == 2 {
        "марта"@
    } else if k == 3 {
        "апреля"@
    } else if k == 4 {
        "мая"@
    } else if k == 5 {
        "июня"@
    } else if k == 6 {
        "июля"@
    } else if k == 7 {
        "августа"@
    } else if k == 8 {
        "сентября"@
    } else if k == 9 {
        "октября"@
    } else if k == 10 {
        "ноября"@
    } else {
        "декабря"@
    }
}

fn month_names(k: usize) -> (r: (&'static str, &'static str))
    requires
        k < 12,
    ensures
        r.0@ == en_month(k as int),
        r.1@ == ru_month(k as int),
        r.0@.len() > 0,
{
    if k == 0 {
        proof { reveal_strlit("January"); }
        ("January", "января")
    } else if k == 1 {
        proof { reveal_strlit("February"); }
        ("February", "февраля")
    } else if k == 2 {
        proof { reveal_strlit("March"); }
        ("March", "марта")
    } else if k == 3 {
        proof { reveal_strlit("April"); }
        ("April", "апреля")
    } else if k == 4 {
        proof { reveal_strlit("May"); }
        ("May", "мая")
    } else if k == 5 {
        proof { reveal_strlit("June"); }
        ("June", "июня")
    } else if k == 6 {
        proof { reveal_strlit("July"); }
        ("July", "июля")
    } else if k == 7 {
        proof { reveal_strlit("August"); }
        ("August", "августа")
    } else if k == 8 {
        proof { reveal_strlit("September"); }
        ("September", "сентября")
    } else if k == 9 {
        proof { reveal_strlit("October"); }
        ("October", "октября")
    } else if k == 10 {
        proof { reveal_strlit("November"); }
        ("November", "ноября")
    } else {
        proof { reveal_strlit("December"); }
        ("December", "декабря")
    }
}

/// `s` after the month swaps from month `k` on: each English name that
/// occurs is replaced everywhere by its Russian form, January first.
pub open spec fn localize_from(s: Seq<char>, k: nat) -> Seq<char>
    decreases 12 - k,
{
    if k >= 12 {
        s
    } else {
        let next = if find(s, en_month(k as int)) is Some {
            replace(s, en_month(k as int), ru_month(k as int))
        } else {
            s
        };
        localize_from(next, k + 1)
    }
}

/// Swap the English long month names for their Russian genitive forms. No
/// English month name occurs inside another, so the swaps do not interfere.
pub fn localize_months(s: &str) -> (r: String)
    ensures
        r@ == localize_from(s@, 0),
{
    let mut out = owned(s);
    let mut k: usize = 0;
    while k < 12
        invariant
            k <= 12,
            localize_from(out@, k as nat) == localize_from(s@, 0),
        decreases 12 - k,
    {
        let (en, ru) = month_names(k);
        let v = to_chars(out.as_str());
        let e = to_chars(en);
        if find_chars(&v, &e).is_some() {
            out = replace_str(out.as_str(), en, ru);
        }
        k += 1;
    }
    out
}

/// The text shown for a formatted date: month names swapped for locale
/// `ru`, unchanged otherwise.
pub open spec fn date_text(formatted: Seq<char>, locale: Seq<char>) -> Seq<char> {
    if locale == "ru"@ {
        localize_from(formatted, 0)
    } else {
        formatted
    }
}

/// The date block for an already formatted date.
pub fn date_block(formatted: &str, locale: &str) -> (b: Block)
    ensures
        is_plain_block(b, date_text(formatted@, locale@)),
{
    if str_eq(locale, "ru") {
        let t = localize_months(formatted);
        Block::text(t.as_str())
    } else {
        Block::text(formatted)
    }
}

/// The date block for `now`: nothing when `time` cannot format it with the
/// description; else the formatted text, localized as `date_block` does.
pub fn produce(now: &DateParts, fmt: &DateFormat, locale: &str) -> (r: Option<Block>)
    ensures
        match date_formatted(now@, fmt@) {
            Some(t) => r matches Some(b) && is_plain_block(b, date_text(t, locale@)),
            None => r is None,
        },
{
    match format_with(now, fmt) {
        Some(text) => Some(date_block(text.as_str(), locale)),
        None => None,
    }
}

} // verus!

verus! {

/// A text in which no English month name occurs comes back unchanged from
/// the month swaps (times, numbers and day names stay as they are).
pub proof fn lemma_localize_keeps_text_without_months(s: Seq<char>)
    requires
        forall|k: int| 0 <= k < 12 ==> find(s, #[trigger] en_month(k)) is None,
    ensures
        localize_from(s, 0) == s,
{
    lemma_localize_from_identity(s, 0);
}

proof fn lemma_localize_from_identity(s: Seq<char>, k: nat)
    requires
        k <= 12,
        forall|j: int| 0 <= j < 12 ==> find(s, #[trigger] en_month(j)) is None,
    ensures
        localize_from(s, k) == s,
    decreases 12 - k,
{
    if k < 12 {
        assert(find(s, en_month(k as int)) is None);
        lemma_localize_from_identity(s, k + 1);
    }
}

} // verus!
