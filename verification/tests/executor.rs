use work_review::executor::{
    AgentExecutor, AgentResult, AgentStep, LlmResponse, StopReason, TraceStep,
    DEFAULT_MAX_ITERATIONS, DEFAULT_SYSTEM_PROMPT,
};
use work_review::message::{Message, ToolCall};

fn json(text: &str) -> serde_json::Value {
    serde_json::from_str(text).unwrap()
}

#[test]
fn test_trace_step_final_answer_format() {
    let step = TraceStep::FinalAnswer {
        round: 1,
        content: "今天你主要在编码".to_string(),
    };
    if let TraceStep::FinalAnswer { round, content } = step {
        assert_eq!(round, 1);
        assert_eq!(content, "今天你主要在编码");
    }
}

#[test]
fn test_trace_step_tool_call_format() {
    let step = TraceStep::ToolCall {
        round: 2,
        tool_name: "search_memory".to_string(),
        arguments: json(r#"{"query": "debug"}"#),
    };
    if let TraceStep::ToolCall { round, tool_name, arguments } = step {
        assert_eq!(round, 2);
        assert_eq!(tool_name, "search_memory");
        assert_eq!(arguments["query"], "debug");
    }
}

#[test]
fn test_agent_result_trace_ordering() {
    let trace = vec![
        TraceStep::ToolCall {
            round: 1,
            tool_name: "analyze_intents".to_string(),
            arguments: json(r#"{"date_from": "2026-06-01", "date_to": "2026-06-09"}"#),
        },
        TraceStep::ToolResult {
            round: 1,
            tool_name: "analyze_intents".to_string(),
            result_preview: "编码 8h (73%)...".to_string(),
        },
        TraceStep::FinalAnswer {
            round: 2,
            content: "本周你主要在编码...".to_string(),
        },
    ];

    assert_eq!(trace.len(), 3);
    assert!(matches!(&trace[0], TraceStep::ToolCall { round: 1, .. }));
    assert!(matches!(&trace[1], TraceStep::ToolResult { round: 1, .. }));
    assert!(matches!(&trace[2], TraceStep::FinalAnswer { round: 2, .. }));
}

#[test]
fn test_max_iterations_default() {
    assert_eq!(DEFAULT_MAX_ITERATIONS, 8);
}

#[test]
fn test_message_construction() {
    let user_msg = Message::user("今天做了什么");
    assert_eq!(user_msg.role, "user");
    assert_eq!(user_msg.content.as_deref(), Some("今天做了什么"));

    let tool_msg = Message::tool_result("call_123", "结果");
    assert_eq!(tool_msg.role, "tool");
    assert_eq!(tool_msg.tool_call_id.as_deref(), Some("call_123"));

    let tc = ToolCall {
        id: "call_456".to_string(),
        name: "search_memory".to_string(),
        arguments: json(r#"{"query": "debug"}"#),
    };
    let assistant_msg = Message::assistant_with_tool_calls(&[tc]);
    assert_eq!(assistant_msg.role, "assistant");
    assert!(assistant_msg.tool_calls.is_some());
}

fn call(id: &str, name: &str) -> ToolCall {
    ToolCall { id: id.to_string(), name: name.to_string(), arguments: json(r#"{"q": 1}"#) }
}

fn done(step: AgentStep) -> AgentResult {
    match step {
        AgentStep::Done(r) => r,
        _ => panic!("the run should be over"),
    }
}

#[test]
fn start_builds_conversation() {
    let history = vec![Message::user("earlier")];
    let run = AgentExecutor::start("now?", None, &history, None);
    assert_eq!(run.messages.len(), 2);
    assert_eq!(run.messages[1].content.as_deref(), Some("now?"));
    assert_eq!(run.max_iterations, 8);
    assert_eq!(run.system_prompt, DEFAULT_SYSTEM_PROMPT);
    assert!(run.has_rounds_left());
    let run = AgentExecutor::start("q", Some("sys"), &[], Some(0));
    assert_eq!(run.system_prompt, "sys");
    assert!(!run.has_rounds_left());
    let r = run.give_up();
    assert_eq!(r.iterations, 0);
    assert_eq!(r.answer, "抱歉，处理这个问题需要过多步骤。请尝试更具体地描述。");
    assert!(matches!(r.trace[0], TraceStep::MaxIterationsReached { max: 0 }));
}

#[test]
fn answer_ends_run() {
    let run = AgentExecutor::start("q", None, &[], None);
    let long = "字".repeat(150);
    let r = done(run.on_model_response(LlmResponse {
        content: Some(long.clone()),
        tool_calls: None,
        stop_reason: StopReason::Stop,
    }));
    assert_eq!(r.answer, long);
    assert_eq!(r.iterations, 1);
    assert!(r.used_ai);
    match &r.trace[0] {
        TraceStep::FinalAnswer { round, content } => {
            assert_eq!(*round, 1);
            assert_eq!(content.chars().count(), 100);
        }
        _ => panic!("expected an answer step"),
    }
}

#[test]
fn truncated_reply_without_text() {
    let run = AgentExecutor::start("q", None, &[], None);
    let r = done(run.on_model_response(LlmResponse {
        content: None,
        tool_calls: None,
        stop_reason: StopReason::MaxTokens,
    }));
    assert_eq!(r.answer, "回答被截断，请尝试缩短问题。");
    let run = AgentExecutor::start("q", None, &[], None);
    let r = done(run.on_model_response(LlmResponse {
        content: None,
        tool_calls: None,
        stop_reason: StopReason::Stop,
    }));
    assert_eq!(r.answer, "");
}

#[test]
fn tool_round_records_calls_and_results() {
    let run = AgentExecutor::start("q", None, &[], None);
    let calls = vec![call("c1", "search"), call("c2", "search"), call("c3", "stats")];
    let step = run.on_model_response(LlmResponse {
        content: None,
        tool_calls: Some(calls),
        stop_reason: StopReason::ToolCall,
    });
    let (mut run, calls) = match step {
        AgentStep::RunTools(r, c) => (r, c),
        _ => panic!("tools should be run"),
    };
    assert_eq!(calls.len(), 3);
    assert_eq!(run.messages.len(), 2);
    assert_eq!(run.messages[1].role, "assistant");
    for (k, tc) in calls.iter().enumerate() {
        run.begin_tool_call(tc);
        let result = if k == 2 { Err("db down".to_string()) } else { Ok("r".repeat(100)) };
        run.finish_tool_call(tc, result);
    }
    assert_eq!(run.tool_labels, vec!["search".to_string(), "stats".to_string()]);
    assert_eq!(run.trace.len(), 6);
    match &run.trace[0] {
        TraceStep::ToolCall { round, tool_name, arguments } => {
            assert_eq!(*round, 1);
            assert_eq!(tool_name, "search");
            assert_eq!(arguments["q"], 1);
        }
        _ => panic!("expected a tool call step"),
    }
    match &run.trace[1] {
        TraceStep::ToolResult { result_preview, .. } => assert_eq!(result_preview.len(), 80),
        _ => panic!("expected a tool result step"),
    }
    let last = run.messages.last().unwrap();
    assert_eq!(last.role, "tool");
    assert_eq!(last.content.as_deref(), Some("工具执行失败: db down"));
    assert_eq!(last.tool_call_id.as_deref(), Some("c3"));
    assert_eq!(last.name.as_deref(), Some("stats"));
    let run = match run.end_round(3) {
        AgentStep::Next(r) => r,
        _ => panic!("the run should go on"),
    };
    assert_eq!(run.round, 1);
    let r = done(run.end_round(31));
    assert_eq!(r.answer, "处理超时，请尝试更具体的问题。");
    assert_eq!(r.iterations, 2);
    assert!(matches!(r.trace.last().unwrap(), TraceStep::MaxIterationsReached { max: 8 }));
}

#[test]
fn trace_step_clone_keeps_arguments() {
    let step = TraceStep::ToolCall { round: 1, tool_name: "t".to_string(), arguments: json(r#"[1,2]"#) };
    match step.clone() {
        TraceStep::ToolCall { arguments, .. } => assert_eq!(arguments, json(r#"[1,2]"#)),
        _ => panic!("expected a tool call step"),
    }
}
