use work_review::localize::{
    format_duration_for_locale, generate_hourly_activity_summary_for_locale,
    translate_category_name,
};
use work_review::report_render::{
    format_domain_label_local, render_app_usage_table, render_category_table,
    render_domain_usage_table, render_hourly_summary, render_local_app_usage_list,
    render_local_category_list, render_local_domain_usage_list, render_local_overview,
};
use work_review::stats::{
    AppLocale, AppUsage, CategoryUsage, DailyStats, DomainUsage, HourlyActivity, NameOverrides,
};

fn stats() -> DailyStats {
    DailyStats {
        total_duration: 7260,
        screenshot_count: 3,
        app_usage: (1..=6)
            .map(|i| AppUsage { app_name: format!("app{}", i), duration: 60 * i })
            .collect(),
        category_usage: vec![
            CategoryUsage { category: "development".to_string(), duration: 5400 },
            CategoryUsage { category: "browser".to_string(), duration: 1860 },
        ],
        browser_duration: 0,
        url_usage: vec![],
        domain_usage: vec![
            DomainUsage {
                domain: "github.com".to_string(),
                duration: 600,
                semantic_category: Some("  coding \n".to_string()),
            },
            DomainUsage { domain: "example.org".to_string(), duration: 30, semantic_category: Some("  ".to_string()) },
            DomainUsage { domain: "news.site".to_string(), duration: 120, semantic_category: None },
        ],
        browser_usage: vec![],
        work_time_duration: 0,
        overtime_duration: 0,
        hourly_activity_distribution: vec![
            HourlyActivity { hour: 9, duration: 1800 },
            HourlyActivity { hour: 10, duration: 0 },
            HourlyActivity { hour: 14, duration: 3900 },
        ],
    }
}

#[test]
fn duration_formats() {
    assert_eq!(format_duration_for_locale(3900, AppLocale::En), "1h 5m");
    assert_eq!(format_duration_for_locale(59, AppLocale::En), "0m");
    assert_eq!(format_duration_for_locale(1800, AppLocale::ZhCn), "30分钟");
    assert_eq!(format_duration_for_locale(7260, AppLocale::ZhCn), "2小时1分钟");
    assert_eq!(format_duration_for_locale(7260, AppLocale::ZhTw), "2小時1分鐘");
    assert_eq!(format_duration_for_locale(-5, AppLocale::En), "0m");
}

#[test]
fn overrides_rename_categories() {
    let mut ov = NameOverrides::new();
    ov.insert("browser".to_string(), "Web".to_string());
    ov.insert("browser".to_string(), "Browsing".to_string());
    assert_eq!(translate_category_name("browser", AppLocale::En, &ov), "Browsing");
    assert_eq!(translate_category_name("development", AppLocale::En, &ov), "development");
    assert_eq!(ov.get("browser"), Some("Browsing".to_string()));
    assert_eq!(ov.get("brows"), None);
}

#[test]
fn category_table_en() {
    let mut ov = NameOverrides::new();
    ov.insert("development".to_string(), "Dev".to_string());
    let t = render_category_table(&stats(), AppLocale::En, &ov, &vec![74, 25]);
    assert_eq!(
        t,
        "## 2. Time Allocation\n\n| Category | Duration | Share |\n|:--|--:|--:|\n| Dev | 1h 30m | 74% |\n| browser | 31m | 25% |\n\n"
    );
}

#[test]
fn category_table_empty() {
    let mut s = stats();
    s.category_usage.clear();
    assert_eq!(render_category_table(&s, AppLocale::En, &NameOverrides::new(), &vec![]), "");
    assert_eq!(render_local_category_list(&s, AppLocale::En, &NameOverrides::new(), &vec![]), "");
}

#[test]
fn app_table_zh() {
    let mut s = stats();
    s.app_usage.truncate(2);
    assert_eq!(
        render_app_usage_table(&s, AppLocale::ZhCn),
        "## 三、应用使用明细\n\n| 序号 | 应用名称 | 使用时长 |\n|--:|:--|--:|\n| 1 | app1 | 1分钟 |\n| 2 | app2 | 2分钟 |\n\n"
    );
}

#[test]
fn hourly_summary_lists_active_hours() {
    assert_eq!(
        generate_hourly_activity_summary_for_locale(&stats(), AppLocale::En),
        Some("- 9:00 30m\n- 14:00 1h 5m\n".to_string())
    );
    assert_eq!(
        render_hourly_summary(&stats(), AppLocale::En),
        "## 4. Hourly Activity\n\n- 9:00 30m\n- 14:00 1h 5m\n\n"
    );
    let mut s = stats();
    s.hourly_activity_distribution = vec![HourlyActivity { hour: 3, duration: 0 }];
    assert_eq!(generate_hourly_activity_summary_for_locale(&s, AppLocale::En), None);
    assert_eq!(render_hourly_summary(&s, AppLocale::En), "");
}

#[test]
fn domain_labels() {
    let s = stats();
    let ov = NameOverrides::new();
    assert_eq!(format_domain_label_local(&s.domain_usage[0], AppLocale::En, &ov), "github.com (coding)");
    assert_eq!(format_domain_label_local(&s.domain_usage[0], AppLocale::ZhCn, &ov), "github.com（coding）");
    assert_eq!(format_domain_label_local(&s.domain_usage[1], AppLocale::En, &ov), "example.org");
    assert_eq!(format_domain_label_local(&s.domain_usage[2], AppLocale::En, &ov), "news.site");
    let mut sem = NameOverrides::new();
    sem.insert("coding".to_string(), "编程".to_string());
    assert_eq!(format_domain_label_local(&s.domain_usage[0], AppLocale::ZhTw, &sem), "github.com（编程）");
}

#[test]
fn domain_table_en() {
    assert_eq!(
        render_domain_usage_table(&stats(), AppLocale::En, &NameOverrides::new()),
        "## 5. Website Details\n\n| # | Domain | Duration |\n|--:|:--|--:|\n| 1 | github.com (coding) | 10m |\n| 2 | example.org | 0m |\n| 3 | news.site | 2m |\n\n"
    );
}

#[test]
fn local_overview_all_locales() {
    let s = stats();
    assert_eq!(
        render_local_overview(&s, AppLocale::ZhCn),
        "## 一、今日概览\n\n- **总工作时长**: 2小时1分钟\n- **截图数量**: 3 张\n- **使用应用**: 6 个\n"
    );
    assert_eq!(
        render_local_overview(&s, AppLocale::ZhTw),
        "## 一、今日概覽\n\n- **總工作時長**: 2小時1分鐘\n- **截圖數量**: 3 張\n- **使用應用**: 6 個\n"
    );
    assert_eq!(
        render_local_overview(&s, AppLocale::En),
        "## 1. Overview\n\n- **Total work duration**: 2h 1m\n- **Screenshots**: 3\n- **Apps used**: 6\n"
    );
}

#[test]
fn local_category_list_en() {
    assert_eq!(
        render_local_category_list(&stats(), AppLocale::En, &NameOverrides::new(), &vec![74, -1]),
        "## 2. Time allocation\n\n- **development**: 1h 30m (74%)\n- **browser**: 31m (-1%)\n"
    );
}

#[test]
fn local_lists_show_at_most_five() {
    let apps = render_local_app_usage_list(&stats(), AppLocale::En);
    assert_eq!(
        apps,
        "## 3. App usage\n\n1. **app1**: 1m\n2. **app2**: 2m\n3. **app3**: 3m\n4. **app4**: 4m\n5. **app5**: 5m\n"
    );
    let domains = render_local_domain_usage_list(&stats(), AppLocale::ZhCn, &NameOverrides::new());
    assert_eq!(
        domains,
        "## 五、网站访问\n\n- **github.com（coding）**: 10分钟\n- **example.org**: 0分钟\n- **news.site**: 2分钟\n"
    );
}
