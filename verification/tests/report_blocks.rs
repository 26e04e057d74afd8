use work_review::report_blocks::{
    render_report_with_live_stats, replace_block, wrap_block, BLOCK_APP_USAGE_TABLE,
    BLOCK_CATEGORY_TABLE, BLOCK_HOURLY_SUMMARY, BLOCK_LOCAL_OVERVIEW,
};
use work_review::stats::{AppLocale, AppUsage, CategoryUsage, DailyStats, NameOverrides};

fn empty_stats() -> DailyStats {
    DailyStats {
        total_duration: 0,
        screenshot_count: 0,
        app_usage: vec![],
        category_usage: vec![],
        browser_duration: 0,
        url_usage: vec![],
        domain_usage: vec![],
        browser_usage: vec![],
        work_time_duration: 0,
        overtime_duration: 0,
        hourly_activity_distribution: vec![],
    }
}

#[test]
fn wrap_block_skips_empty() {
    assert!(wrap_block(BLOCK_CATEGORY_TABLE, "").is_empty());
}

#[test]
fn wrap_block_adds_markers_and_trailing_newline() {
    let wrapped = wrap_block(BLOCK_CATEGORY_TABLE, "hello\n");
    assert!(wrapped.starts_with("<!-- WR_BLOCK_START:CATEGORY_TABLE -->\n"));
    assert!(wrapped.contains("hello\n"));
    assert!(wrapped.trim_end().ends_with("<!-- WR_BLOCK_END:CATEGORY_TABLE -->"));
}

#[test]
fn replace_block_overwrites_content_between_markers() {
    let original = "before\n<!-- WR_BLOCK_START:APP_USAGE_TABLE -->\nstale rows\n<!-- WR_BLOCK_END:APP_USAGE_TABLE -->\nafter\n";
    let updated = replace_block(original, BLOCK_APP_USAGE_TABLE, "fresh rows\n");
    assert!(updated.contains("fresh rows"));
    assert!(!updated.contains("stale rows"));
    assert!(updated.starts_with("before\n"));
    assert!(updated.ends_with("after\n"));
}

#[test]
fn replace_block_returns_input_when_no_markers() {
    let original = "no markers here\n";
    let updated = replace_block(original, BLOCK_CATEGORY_TABLE, "ignored");
    assert_eq!(updated, original);
}

#[test]
fn replace_block_handles_unmatched_start() {
    let original = "<!-- WR_BLOCK_START:CATEGORY_TABLE -->\nnever closed\n";
    let updated = replace_block(original, BLOCK_CATEGORY_TABLE, "ignored");
    assert_eq!(updated, original);
}

#[test]
fn render_report_with_live_stats_passes_through_legacy_content() {
    let legacy = "# 工作日报\n\n直接写死的旧版本，没有任何标记\n";
    let stats = empty_stats();
    assert_eq!(
        render_report_with_live_stats(
            legacy,
            &stats,
            AppLocale::ZhCn,
            &NameOverrides::new(),
            &NameOverrides::new(),
            &vec![],
        ),
        legacy
    );
}

#[test]
fn wrap_block_exact_text() {
    assert_eq!(
        wrap_block("X", "body"),
        "<!-- WR_BLOCK_START:X -->\nbody\n<!-- WR_BLOCK_END:X -->\n"
    );
    assert_eq!(
        wrap_block("X", "body\n"),
        "<!-- WR_BLOCK_START:X -->\nbody\n<!-- WR_BLOCK_END:X -->\n"
    );
}

#[test]
fn wrapped_block_read_back_shows_fresh_text() {
    let saved = wrap_block(BLOCK_HOURLY_SUMMARY, "old numbers\n");
    let shown = replace_block(&saved, BLOCK_HOURLY_SUMMARY, "\n\nnew numbers\n\n");
    assert_eq!(shown, wrap_block(BLOCK_HOURLY_SUMMARY, "new numbers"));
}

#[test]
fn replace_block_with_empty_fresh_keeps_markers_only() {
    let saved = wrap_block("X", "old");
    let shown = replace_block(&saved, "X", "\n\n");
    assert_eq!(shown, "<!-- WR_BLOCK_START:X -->\n<!-- WR_BLOCK_END:X -->\n");
}

#[test]
fn replace_block_replaces_every_block_of_the_name() {
    let original = "a<!-- WR_BLOCK_START:X -->1<!-- WR_BLOCK_END:X -->b<!-- WR_BLOCK_START:X -->2<!-- WR_BLOCK_END:X -->c";
    let updated = replace_block(original, "X", "n");
    assert_eq!(
        updated,
        "a<!-- WR_BLOCK_START:X -->\nn\n<!-- WR_BLOCK_END:X -->b<!-- WR_BLOCK_START:X -->\nn\n<!-- WR_BLOCK_END:X -->c"
    );
}

#[test]
fn replace_block_leaves_other_blocks() {
    let original = "<!-- WR_BLOCK_START:Y -->\nkeep\n<!-- WR_BLOCK_END:Y -->\n";
    assert_eq!(replace_block(original, "X", "fresh"), original);
}

#[test]
fn live_report_refreshes_marked_blocks() {
    let mut stats = empty_stats();
    stats.total_duration = 3900;
    stats.screenshot_count = 12;
    stats.app_usage = vec![AppUsage { app_name: "Code".to_string(), duration: 3600 }];
    stats.category_usage = vec![CategoryUsage { category: "dev".to_string(), duration: 3600 }];
    let saved = format!(
        "# Report\n{}{}tail\n",
        wrap_block(BLOCK_LOCAL_OVERVIEW, "stale overview"),
        wrap_block(BLOCK_CATEGORY_TABLE, "stale table")
    );
    let shown = render_report_with_live_stats(
        &saved,
        &stats,
        AppLocale::En,
        &NameOverrides::new(),
        &NameOverrides::new(),
        &vec![92],
    );
    assert_eq!(
        shown,
        "# Report\n<!-- WR_BLOCK_START:LOCAL_OVERVIEW -->\n## 1. Overview\n\n- **Total work duration**: 1h 5m\n- **Screenshots**: 12\n- **Apps used**: 1\n<!-- WR_BLOCK_END:LOCAL_OVERVIEW -->\n<!-- WR_BLOCK_START:CATEGORY_TABLE -->\n## 2. Time Allocation\n\n| Category | Duration | Share |\n|:--|--:|--:|\n| dev | 1h 0m | 92% |\n<!-- WR_BLOCK_END:CATEGORY_TABLE -->\ntail\n"
    );
}

#[test]
fn live_report_removes_body_of_block_without_data() {
    let saved = wrap_block(BLOCK_APP_USAGE_TABLE, "stale rows");
    let shown = render_report_with_live_stats(
        &saved,
        &empty_stats(),
        AppLocale::ZhCn,
        &NameOverrides::new(),
        &NameOverrides::new(),
        &vec![],
    );
    assert_eq!(
        shown,
        "<!-- WR_BLOCK_START:APP_USAGE_TABLE -->\n<!-- WR_BLOCK_END:APP_USAGE_TABLE -->\n"
    );
}

#[test]
fn rendering_twice_changes_nothing() {
    let saved = format!("intro\n{}outro\n", wrap_block(BLOCK_CATEGORY_TABLE, "old\n"));
    let once = replace_block(&saved, BLOCK_CATEGORY_TABLE, "| a | 1 |\n\n");
    let twice = replace_block(&once, BLOCK_CATEGORY_TABLE, "| a | 1 |\n\n");
    assert_eq!(once, twice);
    assert_eq!(
        once,
        "intro\n<!-- WR_BLOCK_START:CATEGORY_TABLE -->\n| a | 1 |\n<!-- WR_BLOCK_END:CATEGORY_TABLE -->\noutro\n"
    );
}

#[test]
fn rendering_a_whole_report_twice_changes_nothing() {
    let mut stats = empty_stats();
    stats.total_duration = 7260;
    stats.screenshot_count = 30;
    stats.app_usage = vec![
        AppUsage { app_name: "Code".to_string(), duration: 5400 },
        AppUsage { app_name: "Browser".to_string(), duration: 1800 },
    ];
    stats.category_usage = vec![
        CategoryUsage { category: "dev".to_string(), duration: 5400 },
        CategoryUsage { category: "research".to_string(), duration: 1800 },
    ];
    let saved = format!(
        "# Report\n{}between\n{}{}{}end\n",
        wrap_block(BLOCK_LOCAL_OVERVIEW, "stale overview"),
        wrap_block(BLOCK_CATEGORY_TABLE, "stale table"),
        wrap_block(BLOCK_APP_USAGE_TABLE, "stale apps"),
        wrap_block(BLOCK_HOURLY_SUMMARY, "stale hours")
    );
    let shares = vec![75, 25];
    let once = render_report_with_live_stats(
        &saved,
        &stats,
        AppLocale::En,
        &NameOverrides::new(),
        &NameOverrides::new(),
        &shares,
    );
    let twice = render_report_with_live_stats(
        &once,
        &stats,
        AppLocale::En,
        &NameOverrides::new(),
        &NameOverrides::new(),
        &shares,
    );
    assert_ne!(once, saved);
    assert!(once.contains("| dev | 1h 30m | 75% |"));
    assert_eq!(twice, once);
}
