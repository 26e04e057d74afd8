//! The decisions of the agent loop: the model decides, round by round,
//! whether to answer or to call tools; the loop records what happened and
//! stops on an answer, on a truncated answer, after too many rounds or
//! when it has run too long. The model calls, the tool runs and the clock
//! are the caller's: each decision takes what they returned.

use vstd::prelude::*;
use vstd::string::StringExecFns;
use crate::memory::views;
use crate::message::{clone_value, Message, MessageView, ToolCall};
use crate::text::{str_eq, chars_of, push_range};

verus! {

/// How many rounds the loop runs by default.
pub const DEFAULT_MAX_ITERATIONS: usize = 8;

/// How many seconds the loop may run before it gives up.
pub const TIME_LIMIT_SECS: u64 = 30;

/// How many characters of an answer the trace keeps.
pub const ANSWER_PREVIEW_CHARS: usize = 100;

/// How many characters of a tool result the trace keeps.
pub const RESULT_PREVIEW_CHARS: usize = 80;

/// The system prompt used when the caller gives none.
pub const DEFAULT_SYSTEM_PROMPT: &'static str = "你是 Work Review 的工作助手。你只能基于给定记录回答。请使用简体中文回答，直接回应用户问题，先给结论再给依据。不要编造不存在的事实。";

/// The answer when the model's reply was cut off without any text.
pub const TRUNCATED_ANSWER: &'static str = "回答被截断，请尝试缩短问题。";

/// The answer when the loop ran out of time.
pub const TIMEOUT_ANSWER: &'static str = "处理超时，请尝试更具体的问题。";

/// The answer when the loop ran out of rounds.
pub const GIVE_UP_ANSWER: &'static str = "抱歉，处理这个问题需要过多步骤。请尝试更具体地描述。";

/// The text that stands before a tool's error in its result.
pub const TOOL_FAILURE_PREFIX: &'static str = "工具执行失败: ";

/// Why the model stopped.
pub enum StopReason {
    /// It gave its answer.
    Stop,
    /// It asks for tool calls.
    ToolCall,
    /// It ran out of tokens.
    MaxTokens,
}

/// What the model returned in one round.
pub struct LlmResponse {
    pub content: Option<String>,
    pub tool_calls: Option<Vec<ToolCall>>,
    pub stop_reason: StopReason,
}

/// One step of the trace of a run.
#[derive(Debug)]
pub enum TraceStep {
    /// The model answered.
    FinalAnswer { round: usize, content: String },
    /// The model called a tool.
    ToolCall { round: usize, tool_name: String, arguments: serde_json::Value },
    /// A tool returned.
    ToolResult { round: usize, tool_name: String, result_preview: String },
    /// The run stopped before an answer.
    MaxIterationsReached { max: usize },
}

/// A trace step as a value.
pub enum TraceStepView {
    FinalAnswer { round: nat, content: Seq<char> },
    ToolCall { round: nat, tool_name: Seq<char>, arguments: serde_json::Value },
    ToolResult { round: nat, tool_name: Seq<char>, result_preview: Seq<char> },
    MaxIterationsReached { max: nat },
}

impl View for TraceStep {
    type V = TraceStepView;

    open spec fn view(&self) -> TraceStepView {
        match self {
            TraceStep::FinalAnswer { round, content } => TraceStepView::FinalAnswer {
                round: *round as nat,
                content: content@,
            },
            TraceStep::ToolCall { round, tool_name, arguments } => TraceStepView::ToolCall {
                round: *round as nat,
                tool_name: tool_name@,
                arguments: *arguments,
            },
            TraceStep::ToolResult { round, tool_name, result_preview } => TraceStepView::ToolResult {
                round: *round as nat,
                tool_name: tool_name@,
                result_preview: result_preview@,
            },
            TraceStep::MaxIterationsReached { max } => TraceStepView::MaxIterationsReached {
                max: *max as nat,
            },
        }
    }
}

impl Clone for TraceStep {
    fn clone(&self) -> (r: Self)
        ensures
            r@ == self@,
    {
        match self {
            TraceStep::FinalAnswer { round, content } => TraceStep::FinalAnswer {
                round: *round,
                content: content.clone(),
            },
            TraceStep::ToolCall { round, tool_name, arguments } => TraceStep::ToolCall {
                round: *round,
                tool_name: tool_name.clone(),
                arguments: clone_value(arguments),
            },
            TraceStep::ToolResult { round, tool_name, result_preview } => TraceStep::ToolResult {
                round: *round,
                tool_name: tool_name.clone(),
                result_preview: result_preview.clone(),
            },
            TraceStep::MaxIterationsReached { max } => TraceStep::MaxIterationsReached {
                max: *max,
            },
        }
    }
}

/// The views of a trace.
pub open spec fn trace_views(t: Seq<TraceStep>) -> Seq<TraceStepView> {
    t.map_values(|s: TraceStep| s@)
}

/// The views of a list of strings.
pub open spec fn label_views(t: Seq<String>) -> Seq<Seq<char>> {
    t.map_values(|s: String| s@)
}

/// The outcome of a run.
#[derive(Debug)]
pub struct AgentResult {
    /// The final answer.
    pub answer: String,
    /// How many rounds were run.
    pub iterations: usize,
    /// What happened, in order.
    pub trace: Vec<TraceStep>,
    /// Whether the model was used.
    pub used_ai: bool,
    /// The names of the tools called, each once, in the order of their
    /// first call.
    pub tool_labels: Vec<String>,
}

/// The agent loop.
pub struct AgentExecutor;

/// A run of the agent loop between two decisions.
pub struct AgentRun {
    /// The conversation sent to the model.
    pub messages: Vec<Message>,
    /// What happened so far.
    pub trace: Vec<TraceStep>,
    /// The names of the tools called so far, each once.
    pub tool_labels: Vec<String>,
    /// The rounds completed.
    pub round: usize,
    /// The most rounds the run may take.
    pub max_iterations: usize,
    /// The system prompt of every model call.
    pub system_prompt: String,
}

/// What the loop does next.
pub enum AgentStep {
    /// The run is over.
    Done(AgentResult),
    /// Run these tools, in order, then end the round.
    RunTools(AgentRun, Vec<ToolCall>),
    /// Call the model again.
    Next(AgentRun),
}

/// The first `n` characters of `s` (all of them when it has fewer).
pub open spec fn first_chars(s: Seq<char>, n: nat) -> Seq<char> {
    if s.len() <= n {
        s
    } else {
        s.take(n as int)
    }
}

/// The first `n` characters of `s`.
pub fn take_chars(s: &str, n: usize) -> (r: String)
    ensures
        r@ == first_chars(s@, n as nat),
{
    let v = chars_of(s);
    let end: usize = if v.len() <= n { v.len() } else { n };
    let mut out = String::new();
    push_range(&mut out, &v, 0, end);
    assert(v@.subrange(0, end as int) =~= first_chars(s@, n as nat));
    out
}

/// The names among `labels` with `name` added at the end unless it is
/// there already.
pub open spec fn with_label(labels: Seq<Seq<char>>, name: Seq<char>) -> Seq<Seq<char>> {
    if labels.contains(name) {
        labels
    } else {
        labels.push(name)
    }
}

/// No name occurs twice.
pub open spec fn distinct(s: Seq<Seq<char>>) -> bool {
    forall|i: int, j: int| 0 <= i < j < s.len() ==> s[i] != s[j]
}

/// Recording a tool call keeps the labels free of repeats, and the tool
/// called is among them afterwards: each tool is listed once.
pub proof fn lemma_labels_distinct(labels: Seq<Seq<char>>, name: Seq<char>)
    requires
        distinct(labels),
    ensures
        distinct(with_label(labels, name)),
        with_label(labels, name).contains(name),
{
    if !labels.contains(name) {
        let l = labels.push(name);
        assert(l[labels.len() as int] == name);
        assert forall|i: int, j: int| 0 <= i < j < l.len() implies l[i] != l[j] by {
            if j == labels.len() {
                assert(labels[i] == l[i]);
            }
        }
    }
}

impl AgentExecutor {
    /// Starts a run on `question` after `history`, with the given system
    /// prompt (the default one when none is given) and at most
    /// `max_iterations` rounds (`DEFAULT_MAX_ITERATIONS` when none is
    /// given).
    pub fn start(
        question: &str,
        system_prompt: Option<&str>,
        history: &[Message],
        max_iterations: Option<usize>,
    ) -> (r: AgentRun)
        ensures
            views(r.messages@) == views(history@).push(
                MessageView {
                    role: "user"@,
                    content: Some(question@),
                    tool_calls: None,
                    tool_call_id: None,
                    name: None,
                },
            ),
            r.trace@.len() == 0,
            r.tool_labels@.len() == 0,
            r.round == 0,
            r.max_iterations == match max_iterations {
                Some(m) => m,
                None => DEFAULT_MAX_ITERATIONS,
            },
            r.system_prompt@ == match system_prompt {
                Some(p) => p@,
                None => DEFAULT_SYSTEM_PROMPT@,
            },
    {
        let mut messages: Vec<Message> = Vec::new();
        let mut k: usize = 0;
        while k < history.len()
            invariant
                k <= history@.len(),
                views(messages@) == views(history@).take(k as int),
            decreases history@.len() - k,
        {
            let ghost before = messages@;
            let m = history[k].clone();
            messages.push(m);
            proof {
                crate::memory::lemma_views_push(before, m);
            }
            assert(views(messages@) =~= views(history@).take(k + 1));
            k = k + 1;
        }
        assert(views(history@).take(history@.len() as int) =~= views(history@));
        let ghost before = messages@;
        let q = Message::user(question);
        messages.push(q);
        proof {
            crate::memory::lemma_views_push(before, q);
        }
        let sys = match system_prompt {
            Some(p) => String::from_str(p),
            None => String::from_str(DEFAULT_SYSTEM_PROMPT),
        };
        AgentRun {
            messages,
            trace: Vec::new(),
            tool_labels: Vec::new(),
            round: 0,
            max_iterations: match max_iterations {
                Some(m) => m,
                None => DEFAULT_MAX_ITERATIONS,
            },
            system_prompt: sys,
        }
    }
}

impl AgentRun {
    /// Whether the run may call the model again.
    pub fn has_rounds_left(&self) -> (r: bool)
        ensures
            r == (self.round < self.max_iterations),
    {
        self.round < self.max_iterations
    }

    /// Ends the run with `answer`, recording the model's answer (its first
    /// `ANSWER_PREVIEW_CHARS` characters) as the last step.
    fn answered(self, answer: String) -> (r: AgentResult)
        requires
            self.round < self.max_iterations,
        ensures
            r.answer@ == answer@,
            r.iterations == self.round + 1,
            trace_views(r.trace@) == trace_views(self.trace@).push(
                TraceStepView::FinalAnswer {
                    round: (self.round + 1) as nat,
                    content: first_chars(answer@, ANSWER_PREVIEW_CHARS as nat),
                },
            ),
            r.used_ai,
            label_views(r.tool_labels@) == label_views(self.tool_labels@),
    {
        let mut trace = self.trace;
        let ghost before = trace@;
        let preview = take_chars(answer.as_str(), ANSWER_PREVIEW_CHARS);
        trace.push(TraceStep::FinalAnswer { round: self.round + 1, content: preview });
        assert(trace_views(trace@) =~= trace_views(before).push(
            TraceStepView::FinalAnswer {
                round: (self.round + 1) as nat,
                content: first_chars(answer@, ANSWER_PREVIEW_CHARS as nat),
            },
        ));
        AgentResult {
            answer,
            iterations: self.round + 1,
            trace,
            used_ai: true,
            tool_labels: self.tool_labels,
        }
    }

    /// Decides on the model's reply in the current round. An answer ends
    /// the run with it (an empty one when the reply has no text); a reply
    /// cut off for lack of tokens ends it with its text, or with
    /// `TRUNCATED_ANSWER` when there is none; a request for tools records
    /// it in the conversation and asks for the tools to be run (none when
    /// the reply names no call).
    pub fn on_model_response(self, response: LlmResponse) -> (r: AgentStep)
        requires
            self.round < self.max_iterations,
        ensures
            match response.stop_reason {
                StopReason::Stop => r matches AgentStep::Done(res) && res.answer@ == match response.content {
                    Some(c) => c@,
                    None => Seq::empty(),
                } && res.iterations == self.round + 1 && res.iterations <= self.max_iterations && res.used_ai && trace_views(res.trace@)
                    == trace_views(self.trace@).push(
                    TraceStepView::FinalAnswer {
                        round: (self.round + 1) as nat,
                        content: first_chars(res.answer@, ANSWER_PREVIEW_CHARS as nat),
                    },
                ) && label_views(res.tool_labels@) == label_views(self.tool_labels@),
                StopReason::MaxTokens => r matches AgentStep::Done(res) && res.answer@ == match response.content {
                    Some(c) => c@,
                    None => TRUNCATED_ANSWER@,
                } && res.iterations == self.round + 1 && res.iterations <= self.max_iterations && res.used_ai && trace_views(res.trace@)
                    == trace_views(self.trace@).push(
                    TraceStepView::FinalAnswer {
                        round: (self.round + 1) as nat,
                        content: first_chars(res.answer@, ANSWER_PREVIEW_CHARS as nat),
                    },
                ) && label_views(res.tool_labels@) == label_views(self.tool_labels@),
                StopReason::ToolCall => r matches AgentStep::RunTools(next, calls) && next.round
                    == self.round && next.max_iterations == self.max_iterations
                    && next.system_prompt == self.system_prompt && next.trace@ == self.trace@
                    && next.tool_labels@ == self.tool_labels@ && match response.tool_calls {
                    Some(tc) => calls@ == tc@ && views(next.messages@) == views(
                        self.messages@,
                    ).push(
                        MessageView {
                            role: "assistant"@,
                            content: None,
                            tool_calls: Some(tc@),
                            tool_call_id: None,
                            name: None,
                        },
                    ),
                    None => calls@.len() == 0 && next.messages@ == self.messages@,
                },
            },
    {
        match response.stop_reason {
            StopReason::Stop => {
                let content = match response.content {
                    Some(c) => c,
                    None => String::new(),
                };
                AgentStep::Done(self.answered(content))
            },
            StopReason::MaxTokens => {
                let content = match response.content {
                    Some(c) => c,
                    None => String::from_str(TRUNCATED_ANSWER),
                };
                AgentStep::Done(self.answered(content))
            },
            StopReason::ToolCall => {
                let mut run = self;
                match response.tool_calls {
                    Some(calls) => {
                        let ghost before = run.messages@;
                        let m = Message::assistant_with_tool_calls(calls.as_slice());
                        run.messages.push(m);
                        proof {
                            crate::memory::lemma_views_push(before, m);
                        }
                        AgentStep::RunTools(run, calls)
                    },
                    None => AgentStep::RunTools(run, Vec::new()),
                }
            },
        }
    }

    /// Records that the tool call `call` is about to run: a trace step,
    /// and the tool's name among the labels unless it is there already.
    pub fn begin_tool_call(&mut self, call: &ToolCall)
        requires
            old(self).round < old(self).max_iterations,
        ensures
            final(self).messages@ == old(self).messages@,
            final(self).round == old(self).round,
            final(self).max_iterations == old(self).max_iterations,
            final(self).system_prompt == old(self).system_prompt,
            trace_views(final(self).trace@) == trace_views(old(self).trace@).push(
                TraceStepView::ToolCall {
                    round: (old(self).round + 1) as nat,
                    tool_name: call.name@,
                    arguments: call.arguments,
                },
            ),
            label_views(final(self).tool_labels@) == with_label(
                label_views(old(self).tool_labels@),
                call.name@,
            ),
    {
        let ghost before = self.trace@;
        let step = TraceStep::ToolCall {
            round: self.round + 1,
            tool_name: call.name.clone(),
            arguments: clone_value(&call.arguments),
        };
        self.trace.push(step);
        assert(trace_views(self.trace@) =~= trace_views(before).push(step@));
        let ghost labels = label_views(self.tool_labels@);
        let mut k: usize = 0;
        let mut found = false;
        while k < self.tool_labels.len()
            invariant
                k <= self.tool_labels.len(),
                labels == label_views(self.tool_labels@),
                found == labels.take(k as int).contains(call.name@),
            decreases self.tool_labels.len() - k,
        {
            assert(labels.take(k + 1) =~= labels.take(k as int).push(labels[k as int]));
            proof {
                let t0 = labels.take(k as int);
                let t1 = labels.take(k + 1);
                let n = call.name@;
                if t0.contains(n) {
                    let j = choose|j: int| 0 <= j < t0.len() && t0[j] == n;
                    assert(t1[j] == n);
                }
                if labels[k as int] == n {
                    assert(t1[k as int] == n);
                }
                if t1.contains(n) {
                    let j = choose|j: int| 0 <= j < t1.len() && t1[j] == n;
                    if j < k {
                        assert(t0[j] == n);
                    }
                }
                assert(t1.contains(n) == (t0.contains(n) || labels[k as int] == n));
            }
            assert(labels[k as int] == self.tool_labels@[k as int]@);
            if str_eq(self.tool_labels[k].as_str(), call.name.as_str()) {
                found = true;
            }
            k = k + 1;
        }
        assert(labels.take(labels.len() as int) =~= labels);
        if !found {
            self.tool_labels.push(call.name.clone());
            assert(label_views(self.tool_labels@) =~= labels.push(call.name@));
        }
    }

    /// Records what the tool call `call` returned (its error message after
    /// `TOOL_FAILURE_PREFIX` when it failed): a trace step with the first
    /// `RESULT_PREVIEW_CHARS` characters, and the tool's answer in the
    /// conversation.
    pub fn finish_tool_call(&mut self, call: &ToolCall, result: Result<String, String>)
        requires
            old(self).round < old(self).max_iterations,
        ensures
            final(self).round == old(self).round,
            final(self).max_iterations == old(self).max_iterations,
            final(self).system_prompt == old(self).system_prompt,
            final(self).tool_labels@ == old(self).tool_labels@,
            ({
                let text = match result {
                    Ok(r) => r@,
                    Err(e) => TOOL_FAILURE_PREFIX@ + e@,
                };
                &&& trace_views(final(self).trace@) == trace_views(old(self).trace@).push(
                    TraceStepView::ToolResult {
                        round: (old(self).round + 1) as nat,
                        tool_name: call.name@,
                        result_preview: first_chars(text, RESULT_PREVIEW_CHARS as nat),
                    },
                )
                &&& views(final(self).messages@) == views(old(self).messages@).push(
                    MessageView {
                        role: "tool"@,
                        content: Some(text),
                        tool_calls: None,
                        tool_call_id: Some(call.id@),
                        name: Some(call.name@),
                    },
                )
            }),
    {
        let text = match result {
            Ok(r) => r,
            Err(e) => {
                let mut t = String::from_str(TOOL_FAILURE_PREFIX);
                t.append(e.as_str());
                t
            },
        };
        let ghost before = self.trace@;
        let step = TraceStep::ToolResult {
            round: self.round + 1,
            tool_name: call.name.clone(),
            result_preview: take_chars(text.as_str(), RESULT_PREVIEW_CHARS),
        };
        self.trace.push(step);
        assert(trace_views(self.trace@) =~= trace_views(before).push(step@));
        let ghost mbefore = self.messages@;
        let m = Message::tool_result_named(call.id.as_str(), text.as_str(), Some(call.name.as_str()));
        self.messages.push(m);
        proof {
            crate::memory::lemma_views_push(mbefore, m);
        }
    }

    /// Ends the current round after its tools ran, `elapsed_secs` seconds
    /// after the run started: past `TIME_LIMIT_SECS` the run stops with
    /// `TIMEOUT_ANSWER`, otherwise the model is called again.
    pub fn end_round(self, elapsed_secs: u64) -> (r: AgentStep)
        requires
            self.round < self.max_iterations,
        ensures
            elapsed_secs > TIME_LIMIT_SECS ==> (r matches AgentStep::Done(res) && res.answer@
                == TIMEOUT_ANSWER@ && res.iterations == self.round + 1
                && res.iterations <= self.max_iterations && res.used_ai
                && trace_views(res.trace@) == trace_views(self.trace@).push(
                TraceStepView::MaxIterationsReached { max: self.max_iterations as nat },
            ) && label_views(res.tool_labels@) == label_views(self.tool_labels@)),
            elapsed_secs <= TIME_LIMIT_SECS ==> (r matches AgentStep::Next(next) && next.round
                == self.round + 1 && next.max_iterations == self.max_iterations
                && next.system_prompt == self.system_prompt && next.messages@ == self.messages@
                && next.trace@ == self.trace@ && next.tool_labels@ == self.tool_labels@),
    {
        if elapsed_secs > TIME_LIMIT_SECS {
            let mut trace = self.trace;
            let ghost before = trace@;
            let step = TraceStep::MaxIterationsReached { max: self.max_iterations };
            trace.push(step);
            assert(trace_views(trace@) =~= trace_views(before).push(step@));
            AgentStep::Done(
                AgentResult {
                    answer: String::from_str(TIMEOUT_ANSWER),
                    iterations: self.round + 1,
                    trace,
                    used_ai: true,
                    tool_labels: self.tool_labels,
                },
            )
        } else {
            AgentStep::Next(
                AgentRun {
                    messages: self.messages,
                    trace: self.trace,
                    tool_labels: self.tool_labels,
                    round: self.round + 1,
                    max_iterations: self.max_iterations,
                    system_prompt: self.system_prompt,
                },
            )
        }
    }

    /// Ends a run that used all its rounds without an answer: the answer
    /// is `GIVE_UP_ANSWER`.
    pub fn give_up(self) -> (r: AgentResult)
        ensures
            r.answer@ == GIVE_UP_ANSWER@,
            r.iterations == self.max_iterations,
            r.used_ai,
            trace_views(r.trace@) == trace_views(self.trace@).push(
                TraceStepView::MaxIterationsReached { max: self.max_iterations as nat },
            ),
            label_views(r.tool_labels@) == label_views(self.tool_labels@),
    {
        let mut trace = self.trace;
        let ghost before = trace@;
        let step = TraceStep::MaxIterationsReached { max: self.max_iterations };
        trace.push(step);
        assert(trace_views(trace@) =~= trace_views(before).push(step@));
        AgentResult {
            answer: String::from_str(GIVE_UP_ANSWER),
            iterations: self.max_iterations,
            trace,
            used_ai: true,
            tool_labels: self.tool_labels,
        }
    }
}

} // verus!
