//! Locale-dependent pieces of the report text: durations, category names
//! and the hourly activity summary.
//!
//! These are minimal stand-ins with a rendering of their own: the
//! application's translation tables and its wording for durations and
//! hourly summaries are not part of this crate. Category names are shown
//! as given (or as the user's override), in every locale. The report
//! blocks depend on them only through the spec functions below.

use vstd::prelude::*;
use vstd::string::StringExecFns;
use crate::stats::{AppLocale, DailyStats, HourlyActivity, NameOverrides};
use crate::text::{decimal, push_decimal};

verus! {

/// A duration in seconds as the report shows it: whole hours and minutes
/// (minutes alone under an hour); a negative duration shows as zero.
pub open spec fn duration_text(seconds: int, locale: AppLocale) -> Seq<char> {
    let d: int = if seconds < 0 { 0 } else { seconds };
    let h: nat = (d / 3600) as nat;
    let m: nat = ((d % 3600) / 60) as nat;
    match locale {
        AppLocale::En => if h > 0 {
            decimal(h) + "h "@ + decimal(m) + "m"@
        } else {
            decimal(m) + "m"@
        },
        AppLocale::ZhCn => if h > 0 {
            decimal(h) + "小时"@ + decimal(m) + "分钟"@
        } else {
            decimal(m) + "分钟"@
        },
        AppLocale::ZhTw => if h > 0 {
            decimal(h) + "小時"@ + decimal(m) + "分鐘"@
        } else {
            decimal(m) + "分鐘"@
        },
    }
}

/// Formats a duration in seconds for `locale` (a stand-in with a wording
/// of its own for the application's duration formatting).
pub fn format_duration_for_locale(seconds: i64, locale: AppLocale) -> (r: String)
    ensures
        r@ == duration_text(seconds as int, locale),
{
    let d: i64 = if seconds < 0 { 0 } else { seconds };
    let h: i64 = d / 3600;
    let m: i64 = (d % 3600) / 60;
    let mut out = String::new();
    if h > 0 {
        push_decimal(&mut out, h as u64);
        match locale {
            AppLocale::En => out.append("h "),
            AppLocale::ZhCn => out.append("小时"),
            AppLocale::ZhTw => out.append("小時"),
        }
    }
    push_decimal(&mut out, m as u64);
    match locale {
        AppLocale::En => out.append("m"),
        AppLocale::ZhCn => out.append("分钟"),
        AppLocale::ZhTw => out.append("分鐘"),
    }
    assert(out@ =~= duration_text(seconds as int, locale));
    out
}

/// The display name of `name`: the user's override when there is one,
/// otherwise the name itself.
pub open spec fn translated_name(name: Seq<char>, overrides: Map<Seq<char>, Seq<char>>) -> Seq<char> {
    if overrides.contains_key(name) {
        overrides[name]
    } else {
        name
    }
}

/// The display name of a category for the report. A stand-in for the
/// application's translation table: the locale is not used, and a name
/// without an override is shown as given.
pub fn translate_category_name(
    category: &str,
    _locale: AppLocale,
    category_overrides: &NameOverrides,
) -> (r: String)
    ensures
        r@ == translated_name(category@, category_overrides@),
{
    match category_overrides.get(category) {
        Some(d) => d,
        None => String::from_str(category),
    }
}

/// The display name of a semantic (web site) category for the report. A
/// stand-in like `translate_category_name`: the locale is not used.
pub fn translate_semantic_category_name(
    category: &str,
    _locale: AppLocale,
    semantic_overrides: &NameOverrides,
) -> (r: String)
    ensures
        r@ == translated_name(category@, semantic_overrides@),
{
    match semantic_overrides.get(category) {
        Some(d) => d,
        None => String::from_str(category),
    }
}

/// The summary line of one hour with activity.
pub open spec fn hourly_line(a: HourlyActivity, locale: AppLocale) -> Seq<char> {
    "- "@ + decimal(a.hour as nat) + ":00 "@ + duration_text(a.duration as int, locale) + seq!['\n']
}

/// The summary lines of the hours with activity (a positive duration), in
/// the order given.
pub open spec fn hourly_lines(items: Seq<HourlyActivity>, locale: AppLocale) -> Seq<char>
    decreases items.len(),
{
    if items.len() == 0 {
        Seq::empty()
    } else {
        hourly_lines(items.drop_last(), locale) + (if items.last().duration > 0 {
            hourly_line(items.last(), locale)
        } else {
            Seq::empty()
        })
    }
}

/// The hourly activity summary of the day: one line per hour with
/// activity, or nothing when no hour has any. A stand-in with a layout of
/// its own for the application's hourly summary.
pub fn generate_hourly_activity_summary_for_locale(stats: &DailyStats, locale: AppLocale) -> (r:
    Option<String>)
    ensures
        r matches Some(s) ==> s@ == hourly_lines(stats.hourly_activity_distribution@, locale)
            && s@.len() > 0,
        r is None ==> hourly_lines(stats.hourly_activity_distribution@, locale).len() == 0,
{
    let items = &stats.hourly_activity_distribution;
    let mut out = String::new();
    let mut k: usize = 0;
    while k < items.len()
        invariant
            k <= items.len(),
            out@ == hourly_lines(items@.take(k as int), locale),
        decreases items.len() - k,
    {
        assert(items@.take(k + 1).drop_last() =~= items@.take(k as int));
        if items[k].duration > 0 {
            out.append("- ");
            push_decimal(&mut out, items[k].hour as u64);
            out.append(":00 ");
            let d = format_duration_for_locale(items[k].duration, locale);
            out.append(d.as_str());
            crate::text::push_char(&mut out, '\n');
        }
        k = k + 1;
    }
    assert(items@.take(items.len() as int) =~= items@);
    if out.as_str().is_empty() {
        None
    } else {
        Some(out)
    }
}

} // verus!
