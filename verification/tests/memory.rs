use work_review::memory::{ConversationMemory, MAX_MESSAGE_CHARS};
use work_review::message::Message;

#[test]
fn test_memory_add_and_len() {
    let mut mem = ConversationMemory::new();
    assert!(mem.is_empty());

    mem.add("user", "你好");
    mem.add("assistant", "你好！");
    assert_eq!(mem.len(), 2);
}

#[test]
fn test_memory_truncates_long_messages() {
    let mut mem = ConversationMemory::new();
    let long_content = "x".repeat(3000);
    mem.add("user", &long_content);

    let msg = &mem.messages[0];
    assert!(msg.content.as_deref().unwrap().len() <= MAX_MESSAGE_CHARS + 3);
}

#[test]
fn test_memory_compact_triggers_at_limit() {
    let mut mem = ConversationMemory::new();
    mem.max_messages = 6;

    for i in 0..8 {
        mem.add("user", &format!("消息{}", i));
        mem.add("assistant", &format!("回答{}", i));
    }

    assert!(mem.summary.is_some(), "超过上限应该生成摘要");
    assert!(mem.messages.len() <= mem.max_messages, "压缩后不应超过上限");

    let stats = mem.stats();
    assert!(stats.has_summary);
    assert!(stats.summary_preview.is_some());
}

#[test]
fn test_memory_get_context_respects_budget() {
    let mut mem = ConversationMemory::new();
    mem.context_budget = 100;

    for i in 0..10 {
        mem.add("user", &format!("这是一条比较长的用户消息编号{}", i));
        mem.add("assistant", &format!("这是助手的回答消息编号{}", i));
    }

    let context = mem.get_context();
    let total_chars: usize = context
        .iter()
        .filter_map(|m| m.content.as_deref().map(|c| c.len()))
        .sum();

    assert!(
        total_chars < 200,
        "上下文应大致在预算范围内，实际 {} 字符",
        total_chars
    );
}

#[test]
fn test_memory_get_context_recent_first() {
    let mut mem = ConversationMemory::new();
    mem.context_budget = 200;

    mem.add("user", "最早的消息AAAAAAAAAA");
    mem.add("assistant", "最早的回答BBBBBBBBBB");
    mem.add("user", "最新的消息CCCCCCCCCC");
    mem.add("assistant", "最新的回答DDDDDDDDDD");

    let context = mem.get_context();
    let contents: Vec<&str> = context
        .iter()
        .filter_map(|m| m.content.as_deref())
        .collect();

    let has_recent = contents.iter().any(|c| c.contains("最新的"));
    assert!(has_recent, "应该保留最新的消息");
}

#[test]
fn test_memory_from_history() {
    let history = vec![Message::user("问题1"), Message::user("问题2")];

    let mem = ConversationMemory::from_history(&history);
    assert_eq!(mem.len(), 2);
}

#[test]
fn test_memory_summary_accumulates() {
    let mut mem = ConversationMemory::new();
    mem.max_messages = 4;

    for i in 0..3 {
        mem.add("user", &format!("第{}个问题", i));
        mem.add("assistant", &format!("第{}个回答", i));
    }
    let summary1 = mem.summary.clone();

    for i in 3..6 {
        mem.add("user", &format!("第{}个问题", i));
        mem.add("assistant", &format!("第{}个回答", i));
    }
    let summary2 = mem.summary.clone();

    assert!(summary1.is_some());
    assert!(summary2.is_some());
    assert!(summary2.unwrap().len() > summary1.unwrap().len(), "摘要应该随压缩轮次累积");
}

#[test]
fn new_memory_defaults() {
    let mem = ConversationMemory::default();
    assert!(mem.messages.is_empty());
    assert!(mem.summary.is_none());
    assert_eq!(mem.max_messages, 20);
    assert_eq!(mem.context_budget, 8000);
}

#[test]
fn truncation_cuts_at_limit_and_marks_it() {
    let mut mem = ConversationMemory::new();
    mem.add("user", &"x".repeat(3000));
    mem.add("user", &"y".repeat(2000));
    assert_eq!(mem.messages[0].content.as_deref().unwrap(), format!("{}...", "x".repeat(2000)));
    assert_eq!(mem.messages[1].content.as_deref().unwrap(), "y".repeat(2000));
}

#[test]
fn compaction_summary_text() {
    let mut mem = ConversationMemory::new();
    mem.max_messages = 3;
    mem.add("user", "问题一");
    mem.add("assistant", "回答一");
    mem.add("user", "abcdefghijklmnopqrstuvwxyz0123456789");
    mem.add("assistant", "回答二");
    // four messages > three: the older two are folded away
    assert_eq!(mem.messages.len(), 2);
    assert_eq!(mem.summary.as_deref(), Some("[早期对话摘要：用户问了1个问题，涉及：问题一]"));
    assert_eq!(mem.messages[0].content.as_deref(), Some("abcdefghijklmnopqrstuvwxyz0123456789"));
    mem.add("assistant", "回答三");
    mem.add("assistant", "回答四");
    // the long question is quoted by its first 30 characters
    assert_eq!(
        mem.summary.as_deref(),
        Some("[早期对话摘要：用户问了1个问题，涉及：问题一] [早期对话摘要：用户问了1个问题，涉及：abcdefghijklmnopqrstuvwxyz0123]")
    );
}

#[test]
fn compaction_without_user_text_counts_messages() {
    let mut mem = ConversationMemory::new();
    mem.max_messages = 1;
    mem.add("assistant", "a");
    mem.add("assistant", "b");
    assert_eq!(mem.summary.as_deref(), Some("[早期对话：共1条消息]"));
    assert_eq!(mem.messages.len(), 1);
    assert_eq!(mem.messages[0].content.as_deref(), Some("b"));
}

#[test]
fn window_stays_within_limit() {
    let mut mem = ConversationMemory::new();
    mem.max_messages = 5;
    for i in 0..40 {
        mem.add(if i % 2 == 0 { "user" } else { "assistant" }, &format!("m{}", i));
        assert!(mem.messages.len() <= 5);
    }
    assert_eq!(mem.messages.last().unwrap().content.as_deref(), Some("m39"));
}

#[test]
fn context_is_summary_then_newest_in_order() {
    let mut mem = ConversationMemory::new();
    mem.summary = Some("S".to_string());
    mem.context_budget = 7;
    mem.add("user", "aaa");
    mem.add("assistant", "bbb");
    mem.add("user", "cc");
    mem.add("assistant", "dd");
    let ctx = mem.get_context();
    let roles: Vec<&str> = ctx.iter().map(|m| m.role.as_str()).collect();
    let texts: Vec<&str> = ctx.iter().map(|m| m.content.as_deref().unwrap()).collect();
    // "S" (1 byte) + "dd" + "cc" = 5 bytes; adding "bbb" would make 8 > 7
    assert_eq!(roles, vec!["system", "user", "assistant"]);
    assert_eq!(texts, vec!["S", "cc", "dd"]);
}

#[test]
fn context_without_summary_and_large_budget_is_everything() {
    let mut mem = ConversationMemory::new();
    mem.add("user", "q");
    mem.add("assistant", "a");
    let ctx = mem.get_context();
    let texts: Vec<&str> = ctx.iter().map(|m| m.content.as_deref().unwrap()).collect();
    assert_eq!(texts, vec!["q", "a"]);
}

#[test]
fn stats_counts_bytes_and_previews_summary() {
    let mut mem = ConversationMemory::new();
    mem.add("user", "你好");
    mem.add("assistant", "ok");
    let s = mem.stats();
    assert_eq!(s.total_messages, 2);
    assert_eq!(s.total_chars, 8);
    assert!(!s.has_summary);
    assert!(s.summary_preview.is_none());
    mem.summary = Some("abc".to_string());
    let s = mem.stats();
    assert_eq!(s.total_chars, 11);
    assert_eq!(s.summary_preview.as_deref(), Some("ab"));
    mem.summary = Some("z".repeat(100));
    assert_eq!(mem.stats().summary_preview.unwrap(), "z".repeat(59));
}

#[test]
fn from_history_drops_tool_details() {
    let history = vec![Message::tool_result_named("id1", "result", Some("tool")), Message::user("q")];
    let mem = ConversationMemory::from_history(&history);
    assert_eq!(mem.messages[0].role, "tool");
    assert_eq!(mem.messages[0].content.as_deref(), Some("result"));
    assert!(mem.messages[0].tool_call_id.is_none());
    assert!(mem.messages[0].name.is_none());
}

#[test]
fn add_truncates_by_characters() {
    let mut mem = ConversationMemory::new();
    mem.add("user", &"你".repeat(700));
    assert_eq!(mem.messages[0].content.as_deref().unwrap(), "你".repeat(700));
    mem.add("user", &"你".repeat(2500));
    assert_eq!(
        mem.messages[1].content.as_deref().unwrap(),
        format!("{}...", "你".repeat(2000))
    );
}

#[test]
fn from_history_keeps_at_most_the_limit() {
    let history: Vec<Message> = (0..25).map(|i| Message::user(&format!("q{}", i))).collect();
    let mem = ConversationMemory::from_history(&history);
    // 25 > 20: the older 12 are folded into the summary, the newer 13 kept
    assert_eq!(mem.len(), 13);
    assert_eq!(mem.messages[0].content.as_deref(), Some("q12"));
    assert_eq!(mem.summary.as_deref(), Some("[早期对话摘要：用户问了12个问题，涉及：q0、q1、q2]"));
    let short: Vec<Message> = (0..20).map(|i| Message::user(&format!("q{}", i))).collect();
    let mem = ConversationMemory::from_history(&short);
    assert_eq!(mem.len(), 20);
    assert!(mem.summary.is_none());
}

#[test]
fn context_puts_only_the_summary_first() {
    let mut mem = ConversationMemory::new();
    mem.add("user", "a");
    mem.add("system", "b");
    let ctx = mem.get_context();
    let roles: Vec<&str> = ctx.iter().map(|m| m.role.as_str()).collect();
    assert_eq!(roles, vec!["user", "system"]);
    mem.summary = Some("s".to_string());
    let ctx = mem.get_context();
    let texts: Vec<&str> = ctx.iter().map(|m| m.content.as_deref().unwrap()).collect();
    assert_eq!(texts, vec!["s", "a", "b"]);
}
