//! What the rendered blocks hold, stated row by row: a table or list with
//! one more entry in the statistics is the same block with that entry's
//! row added at its end, numbered after the others. So every application,
//! category and web site of the summary tables has its row (the local
//! lists stop after five entries), every category and web site is shown by
//! the user's display name when there is one, and a category keeps its row
//! whatever its share.

use vstd::prelude::*;
use crate::localize::{duration_text, hourly_lines};
use crate::report_render::{
    app_list, app_list_rows, app_table, app_table_rows, category_list, category_list_rows,
    category_table, category_table_rows, domain_list, domain_list_rows, domain_table,
    domain_table_rows, first_n, hourly_summary, local_overview,
};
use crate::stats::{AppLocale, AppUsage, CategoryUsage, DailyStats, DomainUsage, HourlyActivity};
use crate::text::{decimal, rows, signed_decimal, trim_white_space};

verus! {

/// The name shown for `name`: the user's display name for it when there is
/// one, otherwise the name itself.
pub open spec fn shown_name(name: Seq<char>, names: Map<Seq<char>, Seq<char>>) -> Seq<char> {
    if names.contains_key(name) {
        names[name]
    } else {
        name
    }
}

/// How a web site is shown: its domain, followed by the shown name of its
/// semantic category (trimmed of white space) in parentheses, full-width
/// ones outside English, when that category holds more than white space.
pub open spec fn shown_site(d: DomainUsage, locale: AppLocale, names: Map<Seq<char>, Seq<char>>) -> Seq<
    char,
> {
    let t = match d.semantic_category {
        Some(c) => trim_white_space(c@),
        None => Seq::empty(),
    };
    if t.len() == 0 {
        d.domain@
    } else if locale is En {
        d.domain@ + " ("@ + shown_name(t, names) + ")"@
    } else {
        d.domain@ + "（"@ + shown_name(t, names) + "）"@
    }
}

/// Rows of a list with one more item: the rows before, then the row of the
/// new item.
proof fn lemma_rows_push<T>(items: Seq<T>, x: T, row: spec_fn(int, T) -> Seq<char>)
    ensures
        rows(items.push(x), row) == rows(items, row) + row(items.len() as int, x),
{
    assert(items.push(x).drop_last() =~= items);
}

/// Without applications there is no application table.
pub proof fn lemma_app_table_empty(s: DailyStats, locale: AppLocale)
    requires
        s.app_usage@.len() == 0,
    ensures
        app_table(s, locale) == Seq::<char>::empty(),
{
}

/// With one application, the table is the heading, the row numbered 1
/// with the application's name and duration, and a blank line.
#[verifier::spinoff_prover]
pub proof fn lemma_app_table_first(s: DailyStats, locale: AppLocale)
    requires
        s.app_usage@.len() == 1,
    ensures
        app_table(s, locale) == (match locale {
            AppLocale::ZhCn => "## 三、应用使用明细\n\n| 序号 | 应用名称 | 使用时长 |\n|--:|:--|--:|\n"@,
            AppLocale::ZhTw => "## 三、應用使用明細\n\n| 序號 | 應用名稱 | 使用時長 |\n|--:|:--|--:|\n"@,
            AppLocale::En => "## 3. App Details\n\n| # | App | Duration |\n|--:|:--|--:|\n"@,
        }) + "| "@ + decimal(1) + " | "@ + s.app_usage@[0].app_name@ + " | "@ + duration_text(
            s.app_usage@[0].duration as int,
            locale,
        ) + " |\n"@ + "\n"@,
{
    reveal_strlit("\n");
    assert(s.app_usage@ =~= Seq::<AppUsage>::empty().push(s.app_usage@[0]));
    lemma_rows_push(Seq::<AppUsage>::empty(), s.app_usage@[0], app_table_rows(locale));
}

/// One more application (there being at least one already) adds exactly
/// its row at the end of the application table, numbered after the
/// others: the table has a row for every application, however many.
#[verifier::spinoff_prover]
pub proof fn lemma_app_table_one_more(s1: DailyStats, s2: DailyStats, a: AppUsage, locale: AppLocale)
    requires
        s1.app_usage@.len() > 0,
        s2.app_usage@ == s1.app_usage@.push(a),
    ensures
        app_table(s2, locale) == app_table(s1, locale).drop_last() + "| "@ + decimal(
            (s1.app_usage@.len() + 1) as nat,
        ) + " | "@ + a.app_name@ + " | "@ + duration_text(a.duration as int, locale) + " |\n"@
            + "\n"@,
{
    reveal_strlit("\n");
    lemma_rows_push(s1.app_usage@, a, app_table_rows(locale));
    let head = crate::report_render::app_table_head(locale);
    assert(app_table(s1, locale).drop_last() =~= head + rows(s1.app_usage@, app_table_rows(locale)));
}

/// Without sites there is no web site table.
pub proof fn lemma_domain_table_empty(
    s: DailyStats,
    locale: AppLocale,
    names: Map<Seq<char>, Seq<char>>,
)
    requires
        s.domain_usage@.len() == 0,
    ensures
        domain_table(s, locale, names) == Seq::<char>::empty(),
{
}

/// With one site, the web site table is the heading, the row numbered 1
/// with the shown site and its duration, and a blank line.
#[verifier::spinoff_prover]
pub proof fn lemma_domain_table_first(
    s: DailyStats,
    locale: AppLocale,
    names: Map<Seq<char>, Seq<char>>,
)
    requires
        s.domain_usage@.len() == 1,
    ensures
        domain_table(s, locale, names) == (match locale {
            AppLocale::ZhCn => "## 五、网站访问明细\n\n| 序号 | 网站域名 | 访问时长 |\n|--:|:--|--:|\n"@,
            AppLocale::ZhTw => "## 五、網站造訪明細\n\n| 序號 | 網站網域 | 造訪時長 |\n|--:|:--|--:|\n"@,
            AppLocale::En => "## 5. Website Details\n\n| # | Domain | Duration |\n|--:|:--|--:|\n"@,
        }) + "| "@ + decimal(1) + " | "@ + shown_site(s.domain_usage@[0], locale, names) + " | "@
            + duration_text(s.domain_usage@[0].duration as int, locale) + " |\n"@ + "\n"@,
{
    reveal_strlit("\n");
    assert(s.domain_usage@ =~= Seq::<DomainUsage>::empty().push(s.domain_usage@[0]));
    lemma_rows_push(
        Seq::<DomainUsage>::empty(),
        s.domain_usage@[0],
        domain_table_rows(locale, names),
    );
}

/// One more site (there being at least one already) adds exactly its row
/// at the end of the web site table, numbered after the others and
/// labelled with the user's name for its semantic category.
#[verifier::spinoff_prover]
pub proof fn lemma_domain_table_one_more(
    s1: DailyStats,
    s2: DailyStats,
    d: DomainUsage,
    locale: AppLocale,
    names: Map<Seq<char>, Seq<char>>,
)
    requires
        s1.domain_usage@.len() > 0,
        s2.domain_usage@ == s1.domain_usage@.push(d),
    ensures
        domain_table(s2, locale, names) == domain_table(s1, locale, names).drop_last() + "| "@
            + decimal((s1.domain_usage@.len() + 1) as nat) + " | "@ + shown_site(d, locale, names)
            + " | "@ + duration_text(d.duration as int, locale) + " |\n"@ + "\n"@,
{
    reveal_strlit("\n");
    lemma_rows_push(s1.domain_usage@, d, domain_table_rows(locale, names));
    let head = crate::report_render::domain_table_head(locale);
    assert(domain_table(s1, locale, names).drop_last() =~= head + rows(
        s1.domain_usage@,
        domain_table_rows(locale, names),
    ));
}

/// Without categories there is no category table.
pub proof fn lemma_category_table_empty(
    s: DailyStats,
    locale: AppLocale,
    names: Map<Seq<char>, Seq<char>>,
    shares: Seq<i32>,
)
    requires
        s.category_usage@.len() == 0,
    ensures
        category_table(s, locale, names, shares) == Seq::<char>::empty(),
{
}

/// With one category, the category table is the heading, the row with the
/// category's shown name, its duration and its share, and a blank line.
#[verifier::spinoff_prover]
pub proof fn lemma_category_table_first(
    s: DailyStats,
    locale: AppLocale,
    names: Map<Seq<char>, Seq<char>>,
    shares: Seq<i32>,
)
    requires
        s.category_usage@.len() == 1,
    ensures
        category_table(s, locale, names, shares) == (match locale {
            AppLocale::ZhCn => "## 二、时间分配\n\n| 类别 | 时长 | 占比 |\n|:--|--:|--:|\n"@,
            AppLocale::ZhTw => "## 二、時間分配\n\n| 類別 | 時長 | 佔比 |\n|:--|--:|--:|\n"@,
            AppLocale::En => "## 2. Time Allocation\n\n| Category | Duration | Share |\n|:--|--:|--:|\n"@,
        }) + "| "@ + shown_name(s.category_usage@[0].category@, names) + " | "@ + duration_text(
            s.category_usage@[0].duration as int,
            locale,
        ) + " | "@ + signed_decimal(shares[0] as int) + "% |\n"@ + "\n"@,
{
    reveal_strlit("\n");
    assert(s.category_usage@ =~= Seq::<CategoryUsage>::empty().push(s.category_usage@[0]));
    lemma_rows_push(
        Seq::<CategoryUsage>::empty(),
        s.category_usage@[0],
        category_table_rows(shares, locale, names),
    );
}

/// One more category (there being at least one already) adds exactly its
/// row at the end of the category table, with its shown name, duration and
/// share, whatever the share is (a share of 0% included).
#[verifier::spinoff_prover]
pub proof fn lemma_category_table_one_more(
    s1: DailyStats,
    s2: DailyStats,
    c: CategoryUsage,
    locale: AppLocale,
    names: Map<Seq<char>, Seq<char>>,
    shares: Seq<i32>,
)
    requires
        s1.category_usage@.len() > 0,
        s2.category_usage@ == s1.category_usage@.push(c),
    ensures
        category_table(s2, locale, names, shares) == category_table(s1, locale, names, shares).drop_last()
            + "| "@ + shown_name(c.category@, names) + " | "@ + duration_text(c.duration as int, locale)
            + " | "@ + signed_decimal(shares[s1.category_usage@.len() as int] as int) + "% |\n"@
            + "\n"@,
{
    reveal_strlit("\n");
    lemma_rows_push(s1.category_usage@, c, category_table_rows(shares, locale, names));
    let head = crate::report_render::category_table_head(locale);
    assert(category_table(s1, locale, names, shares).drop_last() =~= head + rows(
        s1.category_usage@,
        category_table_rows(shares, locale, names),
    ));
}

/// Without categories there is no category list.
pub proof fn lemma_category_list_empty(
    s: DailyStats,
    locale: AppLocale,
    names: Map<Seq<char>, Seq<char>>,
    shares: Seq<i32>,
)
    requires
        s.category_usage@.len() == 0,
    ensures
        category_list(s, locale, names, shares) == Seq::<char>::empty(),
{
}

/// With one category, the category list of the local report is the
/// heading and the line with the category's shown name, its duration and
/// its share.
#[verifier::spinoff_prover]
pub proof fn lemma_category_list_first(
    s: DailyStats,
    locale: AppLocale,
    names: Map<Seq<char>, Seq<char>>,
    shares: Seq<i32>,
)
    requires
        s.category_usage@.len() == 1,
    ensures
        category_list(s, locale, names, shares) == (match locale {
            AppLocale::ZhCn => "## 二、时间分配\n\n"@,
            AppLocale::ZhTw => "## 二、時間分配\n\n"@,
            AppLocale::En => "## 2. Time allocation\n\n"@,
        }) + "- **"@ + shown_name(s.category_usage@[0].category@, names) + "**: "@ + duration_text(
            s.category_usage@[0].duration as int,
            locale,
        ) + " ("@ + signed_decimal(shares[0] as int) + "%)\n"@,
{
    assert(s.category_usage@ =~= Seq::<CategoryUsage>::empty().push(s.category_usage@[0]));
    lemma_rows_push(
        Seq::<CategoryUsage>::empty(),
        s.category_usage@[0],
        category_list_rows(shares, locale, names),
    );
}

/// One more category adds exactly its line at the end of the category
/// list, with its shown name, duration and share.
#[verifier::spinoff_prover]
pub proof fn lemma_category_list_one_more(
    s1: DailyStats,
    s2: DailyStats,
    c: CategoryUsage,
    locale: AppLocale,
    names: Map<Seq<char>, Seq<char>>,
    shares: Seq<i32>,
)
    requires
        s1.category_usage@.len() > 0,
        s2.category_usage@ == s1.category_usage@.push(c),
    ensures
        category_list(s2, locale, names, shares) == category_list(s1, locale, names, shares) + "- **"@
            + shown_name(c.category@, names) + "**: "@ + duration_text(c.duration as int, locale)
            + " ("@ + signed_decimal(shares[s1.category_usage@.len() as int] as int) + "%)\n"@,
{
    let row = category_list_rows(shares, locale, names);
    let n = s1.category_usage@.len() as int;
    lemma_rows_push(s1.category_usage@, c, row);
    let head = crate::report_render::category_list_head(locale);
    assert(category_list(s2, locale, names, shares) =~= head + rows(s1.category_usage@, row) + row(
        n,
        c,
    ));
}

/// With one application, the application list of the local report is the
/// heading and the line numbered 1 with its name and duration.
#[verifier::spinoff_prover]
pub proof fn lemma_app_list_first(s: DailyStats, locale: AppLocale)
    requires
        s.app_usage@.len() == 1,
    ensures
        app_list(s, locale) == (match locale {
            AppLocale::ZhCn => "## 三、应用使用情况\n\n"@,
            AppLocale::ZhTw => "## 三、應用使用情況\n\n"@,
            AppLocale::En => "## 3. App usage\n\n"@,
        }) + decimal(1) + ". **"@ + s.app_usage@[0].app_name@ + "**: "@ + duration_text(
            s.app_usage@[0].duration as int,
            locale,
        ) + "\n"@,
{
    assert(s.app_usage@ =~= Seq::<AppUsage>::empty().push(s.app_usage@[0]));
    lemma_rows_push(Seq::<AppUsage>::empty(), s.app_usage@[0], app_list_rows(locale));
}

/// One more application adds its numbered line at the end of the local
/// application list while it holds fewer than five, and changes nothing
/// once it holds five.
#[verifier::spinoff_prover]
pub proof fn lemma_app_list_one_more(s1: DailyStats, s2: DailyStats, a: AppUsage, locale: AppLocale)
    requires
        s1.app_usage@.len() > 0,
        s2.app_usage@ == s1.app_usage@.push(a),
    ensures
        s1.app_usage@.len() < 5 ==> app_list(s2, locale) == app_list(s1, locale) + decimal(
            (s1.app_usage@.len() + 1) as nat,
        ) + ". **"@ + a.app_name@ + "**: "@ + duration_text(a.duration as int, locale) + "\n"@,
        s1.app_usage@.len() >= 5 ==> app_list(s2, locale) == app_list(s1, locale),
{
    let n = s1.app_usage@.len();
    if n < 5 {
        assert(first_n(s2.app_usage@, 5) == s2.app_usage@);
        assert(first_n(s1.app_usage@, 5) == s1.app_usage@);
        lemma_rows_push(s1.app_usage@, a, app_list_rows(locale));
    } else {
        assert(first_n(s2.app_usage@, 5) =~= first_n(s1.app_usage@, 5));
    }
}

/// With one site, the web site list of the local report is the heading
/// and the line with the shown site and its duration.
#[verifier::spinoff_prover]
pub proof fn lemma_domain_list_first(
    s: DailyStats,
    locale: AppLocale,
    names: Map<Seq<char>, Seq<char>>,
)
    requires
        s.domain_usage@.len() == 1,
    ensures
        domain_list(s, locale, names) == (match locale {
            AppLocale::ZhCn => "## 五、网站访问\n\n"@,
            AppLocale::ZhTw => "## 五、網站造訪\n\n"@,
            AppLocale::En => "## 5. Website visits\n\n"@,
        }) + "- **"@ + shown_site(s.domain_usage@[0], locale, names) + "**: "@ + duration_text(
            s.domain_usage@[0].duration as int,
            locale,
        ) + "\n"@,
{
    assert(s.domain_usage@ =~= Seq::<DomainUsage>::empty().push(s.domain_usage@[0]));
    lemma_rows_push(
        Seq::<DomainUsage>::empty(),
        s.domain_usage@[0],
        domain_list_rows(locale, names),
    );
}

/// One more site adds its line at the end of the local web site list while
/// it holds fewer than five, and changes nothing once it holds five.
#[verifier::spinoff_prover]
pub proof fn lemma_domain_list_one_more(
    s1: DailyStats,
    s2: DailyStats,
    d: DomainUsage,
    locale: AppLocale,
    names: Map<Seq<char>, Seq<char>>,
)
    requires
        s1.domain_usage@.len() > 0,
        s2.domain_usage@ == s1.domain_usage@.push(d),
    ensures
        s1.domain_usage@.len() < 5 ==> domain_list(s2, locale, names) == domain_list(s1, locale, names)
            + "- **"@ + shown_site(d, locale, names) + "**: "@ + duration_text(d.duration as int, locale)
            + "\n"@,
        s1.domain_usage@.len() >= 5 ==> domain_list(s2, locale, names) == domain_list(
            s1,
            locale,
            names,
        ),
{
    let n = s1.domain_usage@.len();
    if n < 5 {
        assert(first_n(s2.domain_usage@, 5) == s2.domain_usage@);
        assert(first_n(s1.domain_usage@, 5) == s1.domain_usage@);
        lemma_rows_push(s1.domain_usage@, d, domain_list_rows(locale, names));
    } else {
        assert(first_n(s2.domain_usage@, 5) =~= first_n(s1.domain_usage@, 5));
    }
}

/// The overview of the local report shows the total work duration, the
/// number of screenshots and the number of applications used.
pub proof fn lemma_local_overview_shows(s: DailyStats, locale: AppLocale)
    ensures
        local_overview(s, locale) == (match locale {
            AppLocale::ZhCn => "## 一、今日概览\n\n- **总工作时长**: "@ + duration_text(
                s.total_duration as int,
                locale,
            ) + "\n- **截图数量**: "@ + signed_decimal(s.screenshot_count as int)
                + " 张\n- **使用应用**: "@ + decimal(s.app_usage@.len()) + " 个\n"@,
            AppLocale::ZhTw => "## 一、今日概覽\n\n- **總工作時長**: "@ + duration_text(
                s.total_duration as int,
                locale,
            ) + "\n- **截圖數量**: "@ + signed_decimal(s.screenshot_count as int)
                + " 張\n- **使用應用**: "@ + decimal(s.app_usage@.len()) + " 個\n"@,
            AppLocale::En => "## 1. Overview\n\n- **Total work duration**: "@ + duration_text(
                s.total_duration as int,
                locale,
            ) + "\n- **Screenshots**: "@ + signed_decimal(s.screenshot_count as int)
                + "\n- **Apps used**: "@ + decimal(s.app_usage@.len()) + "\n"@,
        }),
{
    reveal_strlit("## 一、今日概览\n\n");
    reveal_strlit("## 一、今日概覽\n\n");
    reveal_strlit("## 1. Overview\n\n");
    reveal_strlit("- **总工作时长**: ");
    reveal_strlit("- **總工作時長**: ");
    reveal_strlit("- **Total work duration**: ");
    reveal_strlit("## 一、今日概览\n\n- **总工作时长**: ");
    reveal_strlit("## 一、今日概覽\n\n- **總工作時長**: ");
    reveal_strlit("## 1. Overview\n\n- **Total work duration**: ");
    let total = duration_text(s.total_duration as int, locale);
    match locale {
        AppLocale::ZhCn => {
            assert("## 一、今日概览\n\n"@ + ("- **总工作时长**: "@ + total) =~= "## 一、今日概览\n\n- **总工作时长**: "@
                + total);
        },
        AppLocale::ZhTw => {
            assert("## 一、今日概覽\n\n"@ + ("- **總工作時長**: "@ + total) =~= "## 一、今日概覽\n\n- **總工作時長**: "@
                + total);
        },
        AppLocale::En => {
            assert("## 1. Overview\n\n"@ + ("- **Total work duration**: "@ + total)
                =~= "## 1. Overview\n\n- **Total work duration**: "@ + total);
        },
    }
}

/// Without any hour of activity there is no hourly summary.
pub proof fn lemma_hourly_summary_empty(s: DailyStats, locale: AppLocale)
    requires
        s.hourly_activity_distribution@.len() == 0,
    ensures
        hourly_summary(s, locale) == Seq::<char>::empty(),
{
}

/// One more hour in the distribution: an hour without activity (no
/// positive duration) changes nothing; an hour with activity adds its line,
/// the hour and its duration, at the end of the summary, which starts with
/// the heading when it was empty before.
#[verifier::spinoff_prover]
pub proof fn lemma_hourly_summary_one_more(
    s1: DailyStats,
    s2: DailyStats,
    a: HourlyActivity,
    locale: AppLocale,
)
    requires
        s2.hourly_activity_distribution@ == s1.hourly_activity_distribution@.push(a),
    ensures
        a.duration <= 0 ==> hourly_summary(s2, locale) == hourly_summary(s1, locale),
        a.duration > 0 && hourly_summary(s1, locale).len() == 0 ==> hourly_summary(s2, locale) == (
        match locale {
            AppLocale::ZhCn => "## 四、按小时活跃度\n\n"@,
            AppLocale::ZhTw => "## 四、按小時活躍度\n\n"@,
            AppLocale::En => "## 4. Hourly Activity\n\n"@,
        }) + "- "@ + decimal(a.hour as nat) + ":00 "@ + duration_text(a.duration as int, locale)
            + "\n"@ + "\n"@,
        a.duration > 0 && hourly_summary(s1, locale).len() > 0 ==> hourly_summary(s2, locale)
            == hourly_summary(s1, locale).drop_last() + "- "@ + decimal(a.hour as nat) + ":00 "@
            + duration_text(a.duration as int, locale) + "\n"@ + "\n"@,
{
    reveal_strlit("\n");
    let h1 = s1.hourly_activity_distribution@;
    assert(h1.push(a).drop_last() =~= h1);
    let lines1 = hourly_lines(h1, locale);
    if lines1.len() > 0 {
        let head = crate::report_render::hourly_head(locale);
        assert(hourly_summary(s1, locale).drop_last() =~= head + lines1);
    }
}

} // verus!
