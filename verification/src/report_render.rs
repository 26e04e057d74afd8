//! Rendering of the statistics blocks of a daily report: the tables of
//! the summary report and the lists of the local report, in each locale.

use vstd::prelude::*;
use vstd::string::StringExecFns;
use crate::localize::{
    duration_text, format_duration_for_locale, generate_hourly_activity_summary_for_locale,
    hourly_lines, translate_category_name, translate_semantic_category_name, translated_name,
};
use crate::stats::{AppLocale, AppUsage, CategoryUsage, DailyStats, DomainUsage, NameOverrides};
use crate::text::{
    decimal, lemma_rows_step, push_char, push_decimal, push_signed, rows, signed_decimal, trim,
    trim_white_space,
};

verus! {

// Summary-mode blocks: tables.

/// The heading and table head of the category table.
pub open spec fn category_table_head(locale: AppLocale) -> Seq<char> {
    match locale {
        AppLocale::ZhCn => "## 二、时间分配\n\n| 类别 | 时长 | 占比 |\n|:--|--:|--:|\n"@,
        AppLocale::ZhTw => "## 二、時間分配\n\n| 類別 | 時長 | 佔比 |\n|:--|--:|--:|\n"@,
        AppLocale::En => "## 2. Time Allocation\n\n| Category | Duration | Share |\n|:--|--:|--:|\n"@,
    }
}

fn category_table_head_text(locale: AppLocale) -> (r: &'static str)
    ensures
        r@ == category_table_head(locale),
{
    match locale {
        AppLocale::ZhCn => "## 二、时间分配\n\n| 类别 | 时长 | 占比 |\n|:--|--:|--:|\n",
        AppLocale::ZhTw => "## 二、時間分配\n\n| 類別 | 時長 | 佔比 |\n|:--|--:|--:|\n",
        AppLocale::En => "## 2. Time Allocation\n\n| Category | Duration | Share |\n|:--|--:|--:|\n",
    }
}

/// One row of the category table: name, duration and share in percent.
pub open spec fn category_table_row(
    c: CategoryUsage,
    share: i32,
    locale: AppLocale,
    overrides: Map<Seq<char>, Seq<char>>,
) -> Seq<char> {
    "| "@ + translated_name(c.category@, overrides) + " | "@ + duration_text(c.duration as int, locale)
        + " | "@ + signed_decimal(share as int) + "% |\n"@
}

/// The rows of the category table, by index.
pub open spec fn category_table_rows(
    shares: Seq<i32>,
    locale: AppLocale,
    overrides: Map<Seq<char>, Seq<char>>,
) -> spec_fn(int, CategoryUsage) -> Seq<char> {
    |i: int, c: CategoryUsage| category_table_row(c, shares[i], locale, overrides)
}

/// The category table: nothing when there is no category, otherwise the
/// head, one row per category in order, and a blank line. `shares[i]` is
/// the share of category `i` in percent.
pub open spec fn category_table(
    stats: DailyStats,
    locale: AppLocale,
    overrides: Map<Seq<char>, Seq<char>>,
    shares: Seq<i32>,
) -> Seq<char> {
    if stats.category_usage@.len() == 0 {
        Seq::empty()
    } else {
        category_table_head(locale) + rows(
            stats.category_usage@,
            category_table_rows(shares, locale, overrides),
        ) + seq!['\n']
    }
}

/// Renders the category table of the summary report. `shares` holds the
/// share of each category of `stats.category_usage` in percent, in the
/// same order.
pub fn render_category_table(
    stats: &DailyStats,
    locale: AppLocale,
    category_overrides: &NameOverrides,
    shares: &Vec<i32>,
) -> (r: String)
    requires
        shares.len() == stats.category_usage.len(),
    ensures
        r@ == category_table(*stats, locale, category_overrides@, shares@),
{
    let items = &stats.category_usage;
    if items.len() == 0 {
        return String::new();
    }
    let ghost row = category_table_rows(shares@, locale, category_overrides@);
    let mut out = String::new();
    out.append(category_table_head_text(locale));
    let mut k: usize = 0;
    while k < items.len()
        invariant
            k <= items.len(),
            shares.len() == items.len(),
            row == category_table_rows(shares@, locale, category_overrides@),
            out@ == category_table_head(locale) + rows(items@.take(k as int), row),
        decreases items.len() - k,
    {
        proof {
            lemma_rows_step(items@, row, k as int);
        }
        let ghost before = out@;
        out.append("| ");
        let name = translate_category_name(items[k].category.as_str(), locale, category_overrides);
        out.append(name.as_str());
        out.append(" | ");
        let d = format_duration_for_locale(items[k].duration, locale);
        out.append(d.as_str());
        out.append(" | ");
        push_signed(&mut out, shares[k] as i64);
        out.append("% |\n");
        assert(name@ == translated_name(items@[k as int].category@, category_overrides@));
        assert(d@ == duration_text(items@[k as int].duration as int, locale));
        assert(row(k as int, items@[k as int]) == category_table_row(items@[k as int], shares@[k as int], locale, category_overrides@));
        assert(out@ =~= before + row(k as int, items@[k as int]));
        k = k + 1;
    }
    push_char(&mut out, '\n');
    assert(items@.take(items.len() as int) =~= items@);
    out
}


/// The heading and table head of the application table.
pub open spec fn app_table_head(locale: AppLocale) -> Seq<char> {
    match locale {
        AppLocale::ZhCn => "## 三、应用使用明细\n\n| 序号 | 应用名称 | 使用时长 |\n|--:|:--|--:|\n"@,
        AppLocale::ZhTw => "## 三、應用使用明細\n\n| 序號 | 應用名稱 | 使用時長 |\n|--:|:--|--:|\n"@,
        AppLocale::En => "## 3. App Details\n\n| # | App | Duration |\n|--:|:--|--:|\n"@,
    }
}

fn app_table_head_text(locale: AppLocale) -> (r: &'static str)
    ensures
        r@ == app_table_head(locale),
{
    match locale {
        AppLocale::ZhCn => "## 三、应用使用明细\n\n| 序号 | 应用名称 | 使用时长 |\n|--:|:--|--:|\n",
        AppLocale::ZhTw => "## 三、應用使用明細\n\n| 序號 | 應用名稱 | 使用時長 |\n|--:|:--|--:|\n",
        AppLocale::En => "## 3. App Details\n\n| # | App | Duration |\n|--:|:--|--:|\n",
    }
}

/// The rows of the application table, by index: number (from one), name
/// and duration.
pub open spec fn app_table_rows(locale: AppLocale) -> spec_fn(int, AppUsage) -> Seq<char> {
    |i: int, a: AppUsage|
        "| "@ + decimal((i + 1) as nat) + " | "@ + a.app_name@ + " | "@ + duration_text(
            a.duration as int,
            locale,
        ) + " |\n"@
}

/// The application table: nothing when no application was used,
/// otherwise the head, one numbered row per application in order, and a
/// blank line.
pub open spec fn app_table(stats: DailyStats, locale: AppLocale) -> Seq<char> {
    if stats.app_usage@.len() == 0 {
        Seq::empty()
    } else {
        app_table_head(locale) + rows(stats.app_usage@, app_table_rows(locale)) + seq!['\n']
    }
}

/// Renders the application table of the summary report.
pub fn render_app_usage_table(stats: &DailyStats, locale: AppLocale) -> (r: String)
    ensures
        r@ == app_table(*stats, locale),
{
    let items = &stats.app_usage;
    if items.len() == 0 {
        return String::new();
    }
    let ghost row = app_table_rows(locale);
    let mut out = String::new();
    out.append(app_table_head_text(locale));
    let mut k: usize = 0;
    while k < items.len()
        invariant
            k <= items.len(),
            row == app_table_rows(locale),
            out@ == app_table_head(locale) + rows(items@.take(k as int), row),
        decreases items.len() - k,
    {
        proof {
            lemma_rows_step(items@, row, k as int);
        }
        let ghost before = out@;
        out.append("| ");
        push_decimal(&mut out, k as u64 + 1);
        out.append(" | ");
        out.append(items[k].app_name.as_str());
        out.append(" | ");
        let d = format_duration_for_locale(items[k].duration, locale);
        out.append(d.as_str());
        out.append(" |\n");
        assert(out@ =~= before + row(k as int, items@[k as int]));
        k = k + 1;
    }
    push_char(&mut out, '\n');
    assert(items@.take(items.len() as int) =~= items@);
    out
}

/// The heading of the hourly summary.
pub open spec fn hourly_head(locale: AppLocale) -> Seq<char> {
    match locale {
        AppLocale::ZhCn => "## 四、按小时活跃度\n\n"@,
        AppLocale::ZhTw => "## 四、按小時活躍度\n\n"@,
        AppLocale::En => "## 4. Hourly Activity\n\n"@,
    }
}

fn hourly_head_text(locale: AppLocale) -> (r: &'static str)
    ensures
        r@ == hourly_head(locale),
{
    match locale {
        AppLocale::ZhCn => "## 四、按小时活跃度\n\n",
        AppLocale::ZhTw => "## 四、按小時活躍度\n\n",
        AppLocale::En => "## 4. Hourly Activity\n\n",
    }
}

/// The hourly summary block: nothing when no hour had activity, otherwise
/// the heading, the hourly summary and a blank line.
pub open spec fn hourly_summary(stats: DailyStats, locale: AppLocale) -> Seq<char> {
    let lines = hourly_lines(stats.hourly_activity_distribution@, locale);
    if lines.len() == 0 {
        Seq::empty()
    } else {
        hourly_head(locale) + lines + seq!['\n']
    }
}

/// Renders the hourly activity block of the summary report.
pub fn render_hourly_summary(stats: &DailyStats, locale: AppLocale) -> (r: String)
    ensures
        r@ == hourly_summary(*stats, locale),
{
    let hourly = match generate_hourly_activity_summary_for_locale(stats, locale) {
        Some(h) => h,
        None => {
            return String::new();
        },
    };
    let mut out = String::new();
    out.append(hourly_head_text(locale));
    out.append(hourly.as_str());
    push_char(&mut out, '\n');
    out
}

/// How a web site is labelled: its domain, followed by its semantic
/// category in parentheses (full-width ones outside English) when the
/// category holds more than white space.
pub open spec fn domain_label(
    d: DomainUsage,
    locale: AppLocale,
    overrides: Map<Seq<char>, Seq<char>>,
) -> Seq<char> {
    match d.semantic_category {
        Some(c) if trim_white_space(c@).len() > 0 => {
            let name = translated_name(trim_white_space(c@), overrides);
            match locale {
                AppLocale::En => d.domain@ + " ("@ + name + ")"@,
                _ => d.domain@ + "（"@ + name + "）"@,
            }
        },
        _ => d.domain@,
    }
}

/// The label of a web site in the report.
pub fn format_domain_label_local(
    domain: &DomainUsage,
    locale: AppLocale,
    semantic_overrides: &NameOverrides,
) -> (r: String)
    ensures
        r@ == domain_label(*domain, locale, semantic_overrides@),
{
    match &domain.semantic_category {
        Some(c) => {
            let t = trim(c.as_str());
            if !t.as_str().is_empty() {
                let name = translate_semantic_category_name(t.as_str(), locale, semantic_overrides);
                let mut out = String::from_str(domain.domain.as_str());
                match locale {
                    AppLocale::En => {
                        out.append(" (");
                        out.append(name.as_str());
                        out.append(")");
                    },
                    _ => {
                        out.append("（");
                        out.append(name.as_str());
                        out.append("）");
                    },
                }
                return out;
            }
        },
        None => {},
    }
    String::from_str(domain.domain.as_str())
}

/// The heading and table head of the web site table.
pub open spec fn domain_table_head(locale: AppLocale) -> Seq<char> {
    match locale {
        AppLocale::ZhCn => "## 五、网站访问明细\n\n| 序号 | 网站域名 | 访问时长 |\n|--:|:--|--:|\n"@,
        AppLocale::ZhTw => "## 五、網站造訪明細\n\n| 序號 | 網站網域 | 造訪時長 |\n|--:|:--|--:|\n"@,
        AppLocale::En => "## 5. Website Details\n\n| # | Domain | Duration |\n|--:|:--|--:|\n"@,
    }
}

fn domain_table_head_text(locale: AppLocale) -> (r: &'static str)
    ensures
        r@ == domain_table_head(locale),
{
    match locale {
        AppLocale::ZhCn => "## 五、网站访问明细\n\n| 序号 | 网站域名 | 访问时长 |\n|--:|:--|--:|\n",
        AppLocale::ZhTw => "## 五、網站造訪明細\n\n| 序號 | 網站網域 | 造訪時長 |\n|--:|:--|--:|\n",
        AppLocale::En => "## 5. Website Details\n\n| # | Domain | Duration |\n|--:|:--|--:|\n",
    }
}

/// The rows of the web site table, by index: number (from one), label and
/// duration.
pub open spec fn domain_table_rows(
    locale: AppLocale,
    overrides: Map<Seq<char>, Seq<char>>,
) -> spec_fn(int, DomainUsage) -> Seq<char> {
    |i: int, d: DomainUsage|
        "| "@ + decimal((i + 1) as nat) + " | "@ + domain_label(d, locale, overrides) + " | "@
            + duration_text(d.duration as int, locale) + " |\n"@
}

/// The web site table: nothing when no site was visited, otherwise the
/// head, one numbered row per site in order, and a blank line.
pub open spec fn domain_table(
    stats: DailyStats,
    locale: AppLocale,
    overrides: Map<Seq<char>, Seq<char>>,
) -> Seq<char> {
    if stats.domain_usage@.len() == 0 {
        Seq::empty()
    } else {
        domain_table_head(locale) + rows(stats.domain_usage@, domain_table_rows(locale, overrides))
            + seq!['\n']
    }
}

/// Renders the web site table of the summary report.
pub fn render_domain_usage_table(
    stats: &DailyStats,
    locale: AppLocale,
    semantic_overrides: &NameOverrides,
) -> (r: String)
    ensures
        r@ == domain_table(*stats, locale, semantic_overrides@),
{
    let items = &stats.domain_usage;
    if items.len() == 0 {
        return String::new();
    }
    let ghost row = domain_table_rows(locale, semantic_overrides@);
    let mut out = String::new();
    out.append(domain_table_head_text(locale));
    let mut k: usize = 0;
    while k < items.len()
        invariant
            k <= items.len(),
            row == domain_table_rows(locale, semantic_overrides@),
            out@ == domain_table_head(locale) + rows(items@.take(k as int), row),
        decreases items.len() - k,
    {
        proof {
            lemma_rows_step(items@, row, k as int);
        }
        let ghost before = out@;
        out.append("| ");
        push_decimal(&mut out, k as u64 + 1);
        out.append(" | ");
        let label = format_domain_label_local(&items[k], locale, semantic_overrides);
        out.append(label.as_str());
        out.append(" | ");
        let d = format_duration_for_locale(items[k].duration, locale);
        out.append(d.as_str());
        out.append(" |\n");
        assert(label@ == domain_label(items@[k as int], locale, semantic_overrides@));
        assert(d@ == duration_text(items@[k as int].duration as int, locale));
        assert(out@ =~= before + row(k as int, items@[k as int]));
        k = k + 1;
    }
    push_char(&mut out, '\n');
    assert(items@.take(items.len() as int) =~= items@);
    out
}


// Local-mode blocks: lists.

/// The heading of the overview.
pub open spec fn overview_head(locale: AppLocale) -> Seq<char> {
    match locale {
        AppLocale::ZhCn => "## 一、今日概览\n\n"@,
        AppLocale::ZhTw => "## 一、今日概覽\n\n"@,
        AppLocale::En => "## 1. Overview\n\n"@,
    }
}

/// The overview: the heading, then the total work duration, the number of
/// screenshots and the number of applications used.
pub open spec fn local_overview(stats: DailyStats, locale: AppLocale) -> Seq<char> {
    let total = duration_text(stats.total_duration as int, locale);
    let shots = signed_decimal(stats.screenshot_count as int);
    let apps = decimal(stats.app_usage@.len());
    overview_head(locale) + match locale {
        AppLocale::ZhCn => "- **总工作时长**: "@ + total + "\n- **截图数量**: "@ + shots
            + " 张\n- **使用应用**: "@ + apps + " 个\n"@,
        AppLocale::ZhTw => "- **總工作時長**: "@ + total + "\n- **截圖數量**: "@ + shots
            + " 張\n- **使用應用**: "@ + apps + " 個\n"@,
        AppLocale::En => "- **Total work duration**: "@ + total + "\n- **Screenshots**: "@ + shots
            + "\n- **Apps used**: "@ + apps + "\n"@,
    }
}

/// Renders the overview of the local report.
pub fn render_local_overview(stats: &DailyStats, locale: AppLocale) -> (r: String)
    ensures
        r@ == local_overview(*stats, locale),
{
    let mut out = String::new();
    let total = format_duration_for_locale(stats.total_duration, locale);
    match locale {
        AppLocale::ZhCn => {
            out.append("## 一、今日概览\n\n");
            out.append("- **总工作时长**: ");
            out.append(total.as_str());
            out.append("\n- **截图数量**: ");
            push_signed(&mut out, stats.screenshot_count);
            out.append(" 张\n- **使用应用**: ");
            push_decimal(&mut out, stats.app_usage.len() as u64);
            out.append(" 个\n");
        },
        AppLocale::ZhTw => {
            out.append("## 一、今日概覽\n\n");
            out.append("- **總工作時長**: ");
            out.append(total.as_str());
            out.append("\n- **截圖數量**: ");
            push_signed(&mut out, stats.screenshot_count);
            out.append(" 張\n- **使用應用**: ");
            push_decimal(&mut out, stats.app_usage.len() as u64);
            out.append(" 個\n");
        },
        AppLocale::En => {
            out.append("## 1. Overview\n\n");
            out.append("- **Total work duration**: ");
            out.append(total.as_str());
            out.append("\n- **Screenshots**: ");
            push_signed(&mut out, stats.screenshot_count);
            out.append("\n- **Apps used**: ");
            push_decimal(&mut out, stats.app_usage.len() as u64);
            out.append("\n");
        },
    }
    assert(out@ =~= local_overview(*stats, locale));
    out
}

/// The heading of the category list.
pub open spec fn category_list_head(locale: AppLocale) -> Seq<char> {
    match locale {
        AppLocale::ZhCn => "## 二、时间分配\n\n"@,
        AppLocale::ZhTw => "## 二、時間分配\n\n"@,
        AppLocale::En => "## 2. Time allocation\n\n"@,
    }
}

fn category_list_head_text(locale: AppLocale) -> (r: &'static str)
    ensures
        r@ == category_list_head(locale),
{
    match locale {
        AppLocale::ZhCn => "## 二、时间分配\n\n",
        AppLocale::ZhTw => "## 二、時間分配\n\n",
        AppLocale::En => "## 2. Time allocation\n\n",
    }
}

/// The lines of the category list, by index: name, duration and share in
/// percent.
pub open spec fn category_list_rows(
    shares: Seq<i32>,
    locale: AppLocale,
    overrides: Map<Seq<char>, Seq<char>>,
) -> spec_fn(int, CategoryUsage) -> Seq<char> {
    |i: int, c: CategoryUsage|
        "- **"@ + translated_name(c.category@, overrides) + "**: "@ + duration_text(
            c.duration as int,
            locale,
        ) + " ("@ + signed_decimal(shares[i] as int) + "%)\n"@
}

/// The category list: nothing when there is no category, otherwise the
/// heading and one line per category in order. `shares[i]` is the share
/// of category `i` in percent.
pub open spec fn category_list(
    stats: DailyStats,
    locale: AppLocale,
    overrides: Map<Seq<char>, Seq<char>>,
    shares: Seq<i32>,
) -> Seq<char> {
    if stats.category_usage@.len() == 0 {
        Seq::empty()
    } else {
        category_list_head(locale) + rows(
            stats.category_usage@,
            category_list_rows(shares, locale, overrides),
        )
    }
}

/// Renders the category list of the local report. `shares` holds the
/// share of each category of `stats.category_usage` in percent, in the
/// same order.
pub fn render_local_category_list(
    stats: &DailyStats,
    locale: AppLocale,
    category_overrides: &NameOverrides,
    shares: &Vec<i32>,
) -> (r: String)
    requires
        shares.len() == stats.category_usage.len(),
    ensures
        r@ == category_list(*stats, locale, category_overrides@, shares@),
{
    let items = &stats.category_usage;
    if items.len() == 0 {
        return String::new();
    }
    let ghost row = category_list_rows(shares@, locale, category_overrides@);
    let mut out = String::new();
    out.append(category_list_head_text(locale));
    let mut k: usize = 0;
    while k < items.len()
        invariant
            k <= items.len(),
            shares.len() == items.len(),
            row == category_list_rows(shares@, locale, category_overrides@),
            out@ == category_list_head(locale) + rows(items@.take(k as int), row),
        decreases items.len() - k,
    {
        proof {
            lemma_rows_step(items@, row, k as int);
        }
        let ghost before = out@;
        out.append("- **");
        let name = translate_category_name(items[k].category.as_str(), locale, category_overrides);
        out.append(name.as_str());
        out.append("**: ");
        let d = format_duration_for_locale(items[k].duration, locale);
        out.append(d.as_str());
        out.append(" (");
        push_signed(&mut out, shares[k] as i64);
        out.append("%)\n");
        assert(name@ == translated_name(items@[k as int].category@, category_overrides@));
        assert(d@ == duration_text(items@[k as int].duration as int, locale));
        assert(out@ =~= before + row(k as int, items@[k as int]));
        k = k + 1;
    }
    assert(items@.take(items.len() as int) =~= items@);
    out
}

/// How many entries the local lists show at most.
pub const LOCAL_LIST_LIMIT: usize = 5;

/// The heading of the application list.
pub open spec fn app_list_head(locale: AppLocale) -> Seq<char> {
    match locale {
        AppLocale::ZhCn => "## 三、应用使用情况\n\n"@,
        AppLocale::ZhTw => "## 三、應用使用情況\n\n"@,
        AppLocale::En => "## 3. App usage\n\n"@,
    }
}

fn app_list_head_text(locale: AppLocale) -> (r: &'static str)
    ensures
        r@ == app_list_head(locale),
{
    match locale {
        AppLocale::ZhCn => "## 三、应用使用情况\n\n",
        AppLocale::ZhTw => "## 三、應用使用情況\n\n",
        AppLocale::En => "## 3. App usage\n\n",
    }
}

/// The lines of the application list, by index: number (from one), name
/// and duration.
pub open spec fn app_list_rows(locale: AppLocale) -> spec_fn(int, AppUsage) -> Seq<char> {
    |i: int, a: AppUsage|
        decimal((i + 1) as nat) + ". **"@ + a.app_name@ + "**: "@ + duration_text(
            a.duration as int,
            locale,
        ) + "\n"@
}

/// The first `n` items of `s` (all of them when there are fewer).
pub open spec fn first_n<T>(s: Seq<T>, n: int) -> Seq<T> {
    if s.len() <= n {
        s
    } else {
        s.take(n)
    }
}

/// The application list: nothing when no application was used, otherwise
/// the heading and a numbered line for each of the first five
/// applications.
pub open spec fn app_list(stats: DailyStats, locale: AppLocale) -> Seq<char> {
    if stats.app_usage@.len() == 0 {
        Seq::empty()
    } else {
        app_list_head(locale) + rows(
            first_n(stats.app_usage@, LOCAL_LIST_LIMIT as int),
            app_list_rows(locale),
        )
    }
}

/// Renders the application list of the local report.
pub fn render_local_app_usage_list(stats: &DailyStats, locale: AppLocale) -> (r: String)
    ensures
        r@ == app_list(*stats, locale),
{
    let items = &stats.app_usage;
    if items.len() == 0 {
        return String::new();
    }
    let n: usize = if items.len() < LOCAL_LIST_LIMIT { items.len() } else { LOCAL_LIST_LIMIT };
    let ghost row = app_list_rows(locale);
    let mut out = String::new();
    out.append(app_list_head_text(locale));
    let mut k: usize = 0;
    while k < n
        invariant
            k <= n <= items.len(),
            row == app_list_rows(locale),
            out@ == app_list_head(locale) + rows(items@.take(k as int), row),
        decreases n - k,
    {
        proof {
            lemma_rows_step(items@, row, k as int);
        }
        let ghost before = out@;
        push_decimal(&mut out, k as u64 + 1);
        out.append(". **");
        out.append(items[k].app_name.as_str());
        out.append("**: ");
        let d = format_duration_for_locale(items[k].duration, locale);
        out.append(d.as_str());
        out.append("\n");
        assert(out@ =~= before + row(k as int, items@[k as int]));
        k = k + 1;
    }
    assert(items@.take(n as int) =~= first_n(items@, LOCAL_LIST_LIMIT as int));
    out
}

/// The heading of the web site list.
pub open spec fn domain_list_head(locale: AppLocale) -> Seq<char> {
    match locale {
        AppLocale::ZhCn => "## 五、网站访问\n\n"@,
        AppLocale::ZhTw => "## 五、網站造訪\n\n"@,
        AppLocale::En => "## 5. Website visits\n\n"@,
    }
}

fn domain_list_head_text(locale: AppLocale) -> (r: &'static str)
    ensures
        r@ == domain_list_head(locale),
{
    match locale {
        AppLocale::ZhCn => "## 五、网站访问\n\n",
        AppLocale::ZhTw => "## 五、網站造訪\n\n",
        AppLocale::En => "## 5. Website visits\n\n",
    }
}

/// The lines of the web site list: label and duration.
pub open spec fn domain_list_rows(
    locale: AppLocale,
    overrides: Map<Seq<char>, Seq<char>>,
) -> spec_fn(int, DomainUsage) -> Seq<char> {
    |i: int, d: DomainUsage|
        "- **"@ + domain_label(d, locale, overrides) + "**: "@ + duration_text(
            d.duration as int,
            locale,
        ) + "\n"@
}

/// The web site list: nothing when no site was visited, otherwise the
/// heading and a line for each of the first five sites.
pub open spec fn domain_list(
    stats: DailyStats,
    locale: AppLocale,
    overrides: Map<Seq<char>, Seq<char>>,
) -> Seq<char> {
    if stats.domain_usage@.len() == 0 {
        Seq::empty()
    } else {
        domain_list_head(locale) + rows(
            first_n(stats.domain_usage@, LOCAL_LIST_LIMIT as int),
            domain_list_rows(locale, overrides),
        )
    }
}

/// Renders the web site list of the local report.
pub fn render_local_domain_usage_list(
    stats: &DailyStats,
    locale: AppLocale,
    semantic_overrides: &NameOverrides,
) -> (r: String)
    ensures
        r@ == domain_list(*stats, locale, semantic_overrides@),
{
    let items = &stats.domain_usage;
    if items.len() == 0 {
        return String::new();
    }
    let n: usize = if items.len() < LOCAL_LIST_LIMIT { items.len() } else { LOCAL_LIST_LIMIT };
    let ghost row = domain_list_rows(locale, semantic_overrides@);
    let mut out = String::new();
    out.append(domain_list_head_text(locale));
    let mut k: usize = 0;
    while k < n
        invariant
            k <= n <= items.len(),
            row == domain_list_rows(locale, semantic_overrides@),
            out@ == domain_list_head(locale) + rows(items@.take(k as int), row),
        decreases n - k,
    {
        proof {
            lemma_rows_step(items@, row, k as int);
        }
        let ghost before = out@;
        out.append("- **");
        let label = format_domain_label_local(&items[k], locale, semantic_overrides);
        out.append(label.as_str());
        out.append("**: ");
        let d = format_duration_for_locale(items[k].duration, locale);
        out.append(d.as_str());
        out.append("\n");
        assert(label@ == domain_label(items@[k as int], locale, semantic_overrides@));
        assert(d@ == duration_text(items@[k as int].duration as int, locale));
        assert(out@ =~= before + row(k as int, items@[k as int]));
        k = k + 1;
    }
    assert(items@.take(n as int) =~= first_n(items@, LOCAL_LIST_LIMIT as int));
    out
}

} // verus!
