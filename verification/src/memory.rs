//! The agent's conversation memory: a bounded window of recent messages,
//! older messages folded into a summary, and a character budget for the
//! context sent to the language model.

use vstd::prelude::*;
use vstd::string::StringExecFns;
use vstd::utf8::encode_utf8;
use crate::message::{Message, MessageView, clone_opt_string};
use crate::memory_laws::lemma_compaction_accumulates;
use crate::text::{str_eq, chars_of, decimal, push_decimal, push_range};

verus! {

/// The most messages kept before older ones are folded into the summary.
pub const MAX_MESSAGES: usize = 20;

/// The most characters of a message kept; longer messages are cut there.
pub const MAX_MESSAGE_CHARS: usize = 2000;

/// The bytes of text the context holds at most, the summary included (a
/// summary larger than that is still sent, alone).
pub const DEFAULT_CONTEXT_BUDGET: usize = 8000;

/// How many characters of a user message the summary quotes at most.
pub const PREVIEW_CHARS: usize = 30;

/// How many user messages the summary quotes at most.
pub const PREVIEW_COUNT: usize = 3;

/// The conversation history of an agent.
#[derive(Debug)]
pub struct ConversationMemory {
    /// The messages kept, oldest first.
    pub messages: Vec<Message>,
    /// The summary of the messages folded away, if any were.
    pub summary: Option<String>,
    /// The most messages kept.
    pub max_messages: usize,
    /// The bytes of message text the context may hold.
    pub context_budget: usize,
}

/// A memory as a value.
pub struct MemoryView {
    pub messages: Seq<MessageView>,
    pub summary: Option<Seq<char>>,
    pub max_messages: nat,
    pub context_budget: nat,
}

/// The views of a list of messages.
pub open spec fn views(ms: Seq<Message>) -> Seq<MessageView> {
    ms.map_values(|m: Message| m@)
}

impl View for ConversationMemory {
    type V = MemoryView;

    open spec fn view(&self) -> MemoryView {
        MemoryView {
            messages: views(self.messages@),
            summary: crate::message::opt_view(self.summary),
            max_messages: self.max_messages as nat,
            context_budget: self.context_budget as nat,
        }
    }
}

/// The number of bytes of the UTF-8 encoding of `s`, which is what
/// `str::len` counts.
pub open spec fn byte_len(s: Seq<char>) -> nat {
    encode_utf8(s).len()
}

/// A message as the memory keeps it: role and text only.
pub open spec fn kept(role: Seq<char>, content: Option<Seq<char>>) -> MessageView {
    MessageView { role, content, tool_calls: None, tool_call_id: None, name: None }
}

/// The text kept of a message: when it has more than `MAX_MESSAGE_CHARS`
/// characters, its first `MAX_MESSAGE_CHARS` characters followed by
/// `...`.
pub open spec fn truncated(content: Seq<char>) -> Seq<char> {
    if content.len() > MAX_MESSAGE_CHARS {
        content.take(MAX_MESSAGE_CHARS as int) + "..."@
    } else {
        content
    }
}

/// The memory after `add(role, content)`: the message appended, then the
/// older half folded into the summary when there are more messages than
/// the limit.
pub open spec fn added(m: MemoryView, role: Seq<char>, content: Seq<char>) -> MemoryView {
    let grown = MemoryView {
        messages: m.messages.push(kept(role, Some(truncated(content)))),
        ..m
    };
    if grown.messages.len() > m.max_messages {
        compacted(grown)
    } else {
        grown
    }
}

/// Is the message from the user?
pub open spec fn is_user(m: MessageView) -> bool {
    m.role == "user"@
}

/// The number of user messages.
pub open spec fn user_count(ms: Seq<MessageView>) -> nat
    decreases ms.len(),
{
    if ms.len() == 0 {
        0
    } else {
        user_count(ms.drop_last()) + if is_user(ms.last()) {
            1nat
        } else {
            0nat
        }
    }
}

/// How a user message is quoted in the summary: its first
/// `PREVIEW_CHARS` characters (all of it when it is shorter).
pub open spec fn preview(c: Seq<char>) -> Seq<char> {
    if c.len() > PREVIEW_CHARS {
        c.take(PREVIEW_CHARS as int)
    } else {
        c
    }
}

/// The quotes of the user messages that have text, in order.
pub open spec fn previews(ms: Seq<MessageView>) -> Seq<Seq<char>>
    decreases ms.len(),
{
    if ms.len() == 0 {
        Seq::empty()
    } else {
        previews(ms.drop_last()) + match ms.last().content {
            Some(c) if is_user(ms.last()) => seq![preview(c)],
            _ => Seq::empty(),
        }
    }
}

/// The parts joined with `sep` between each two of them.
pub open spec fn join(parts: Seq<Seq<char>>, sep: Seq<char>) -> Seq<char>
    decreases parts.len(),
{
    if parts.len() == 0 {
        Seq::empty()
    } else if parts.len() == 1 {
        parts[0]
    } else {
        join(parts.drop_last(), sep) + sep + parts.last()
    }
}

/// The summary of folded messages: how many user messages there were and
/// the first `PREVIEW_COUNT` quotes, or only how many messages there were
/// when no user message had text.
pub open spec fn summary_of(old: Seq<MessageView>) -> Seq<char> {
    let ps = previews(old);
    let quoted = if ps.len() <= PREVIEW_COUNT {
        ps
    } else {
        ps.take(PREVIEW_COUNT as int)
    };
    if quoted.len() == 0 {
        "[早期对话：共"@ + decimal(old.len()) + "条消息]"@
    } else {
        "[早期对话摘要：用户问了"@ + decimal(user_count(old)) + "个问题，涉及："@ + join(quoted, "、"@)
            + "]"@
    }
}

/// The memory after folding the older half of its messages (the first
/// `len / 2`) into the summary, which is appended, after a space, to the
/// summary there was.
pub open spec fn compacted(m: MemoryView) -> MemoryView {
    let split = m.messages.len() / 2;
    let s = summary_of(m.messages.take(split as int));
    MemoryView {
        messages: m.messages.skip(split as int),
        summary: Some(
            match m.summary {
                Some(e) => e + " "@ + s,
                None => s,
            },
        ),
        ..m
    }
}

/// The memory after folding the older half of its messages into the
/// summary, again and again, until at most `max_messages` are kept (or only
/// one is left).
pub open spec fn settled(m: MemoryView) -> MemoryView
    decreases m.messages.len(),
{
    if m.messages.len() > m.max_messages && m.messages.len() >= 2 {
        settled(compacted(m))
    } else {
        m
    }
}

/// Settling keeps at most `max_messages` messages when that limit is at
/// least one, and keeps the limits.
pub proof fn lemma_settled_within_limit(m: MemoryView)
    ensures
        m.max_messages >= 1 ==> settled(m).messages.len() <= m.max_messages,
        settled(m).max_messages == m.max_messages,
        settled(m).context_budget == m.context_budget,
    decreases m.messages.len(),
{
    if m.messages.len() > m.max_messages && m.messages.len() >= 2 {
        lemma_settled_within_limit(compacted(m));
    }
}

/// The messages of a history as the memory keeps them: role and text only.
pub open spec fn history_kept(h: Seq<Message>) -> Seq<MessageView> {
    h.map_values(|m: Message| kept(m@.role, m@.content))
}

/// The bytes of a message's text (none without text).
pub open spec fn content_bytes(m: MessageView) -> nat {
    match m.content {
        Some(c) => byte_len(c),
        None => 0,
    }
}

/// The bytes of the summary (none without one).
pub open spec fn summary_bytes(m: MemoryView) -> nat {
    match m.summary {
        Some(s) => byte_len(s),
        None => 0,
    }
}

/// How many of the newest messages of `ms` fit, taken newest first, in
/// `budget` bytes when `used` bytes are already taken: taking stops at the
/// first message that does not fit.
pub open spec fn fitting(ms: Seq<MessageView>, used: int, budget: int) -> nat
    decreases ms.len(),
{
    if ms.len() == 0 {
        0
    } else if used + content_bytes(ms.last()) > budget {
        0
    } else {
        1 + fitting(ms.drop_last(), used + content_bytes(ms.last()), budget)
    }
}

/// The message that carries the summary in the context.
pub open spec fn summary_message(s: Seq<char>) -> MessageView {
    kept("system"@, Some(s))
}

/// The number of newest messages that the context holds.
pub open spec fn context_count(m: MemoryView) -> nat {
    fitting(m.messages, summary_bytes(m) as int, m.context_budget as int)
}

/// The context for the next model call: the summary message, if there is
/// a summary, then the newest messages that fit in the budget, oldest of
/// them first.
pub open spec fn context_of(m: MemoryView) -> Seq<MessageView> {
    let head = match m.summary {
        Some(s) => seq![summary_message(s)],
        None => Seq::empty(),
    };
    head + m.messages.skip(m.messages.len() - context_count(m))
}

/// Appending a message appends its view.
pub proof fn lemma_views_push(ms: Seq<Message>, m: Message)
    ensures
        views(ms.push(m)) == views(ms).push(m@),
{
    assert(views(ms.push(m)) =~= views(ms).push(m@));
}

/// The bytes of the text of all the messages.
pub open spec fn total_content_bytes(ms: Seq<MessageView>) -> nat
    decreases ms.len(),
{
    if ms.len() == 0 {
        0
    } else {
        total_content_bytes(ms.drop_last()) + content_bytes(ms.last())
    }
}

/// The bytes of the first messages are at most those of all.
pub proof fn lemma_total_content_bytes_prefix(ms: Seq<MessageView>, k: int)
    requires
        0 <= k <= ms.len(),
    ensures
        total_content_bytes(ms.take(k)) <= total_content_bytes(ms),
    decreases ms.len() - k,
{
    if k < ms.len() {
        lemma_total_content_bytes_prefix(ms, k + 1);
        assert(ms.take(k + 1).drop_last() =~= ms.take(k));
    } else {
        assert(ms.take(k) =~= ms);
    }
}

/// How many characters of the summary the statistics show at most.
pub const SUMMARY_PREVIEW_CHARS: usize = 60;

/// The start of the summary that the statistics show: the characters
/// before the start of its `SUMMARY_PREVIEW_CHARS`-th character, or
/// before its last character when it is shorter (nothing when it is
/// empty).
pub open spec fn summary_preview(s: Seq<char>) -> Seq<char> {
    if s.len() == 0 {
        s
    } else if s.len() < SUMMARY_PREVIEW_CHARS {
        s.take(s.len() - 1)
    } else {
        s.take(SUMMARY_PREVIEW_CHARS - 1)
    }
}

/// Counts describing the state of a memory.
#[derive(Debug)]
pub struct MemoryStats {
    pub total_messages: usize,
    pub total_chars: usize,
    pub has_summary: bool,
    pub summary_preview: Option<String>,
}

/// The views of a list of strings.
pub open spec fn string_views(v: Seq<String>) -> Seq<Seq<char>> {
    v.map_values(|s: String| s@)
}

/// How a user message is quoted in the summary.
fn preview_text(c: &str) -> (r: String)
    ensures
        r@ == preview(c@),
{
    let v = chars_of(c);
    let mut out = String::new();
    if v.len() > PREVIEW_CHARS {
        push_range(&mut out, &v, 0, PREVIEW_CHARS);
        assert(v@.subrange(0, PREVIEW_CHARS as int) =~= v@.take(PREVIEW_CHARS as int));
    } else {
        push_range(&mut out, &v, 0, v.len());
        assert(v@.subrange(0, v.len() as int) =~= v@);
    }
    out
}

/// The first `n` of `parts` joined with `sep`.
fn join_first(parts: &Vec<String>, n: usize, sep: &str) -> (r: String)
    requires
        n <= parts.len(),
    ensures
        r@ == join(string_views(parts@).take(n as int), sep@),
{
    let ghost ps = string_views(parts@);
    let mut out = String::new();
    if n == 0 {
        assert(ps.take(0) =~= Seq::<Seq<char>>::empty());
        return out;
    }
    out.append(parts[0].as_str());
    assert(ps.take(1) =~= seq![ps[0]]);
    let mut k: usize = 1;
    while k < n
        invariant
            1 <= k <= n <= parts.len(),
            ps == string_views(parts@),
            out@ == join(ps.take(k as int), sep@),
        decreases n - k,
    {
        out.append(sep);
        out.append(parts[k].as_str());
        assert(ps.take(k + 1).drop_last() =~= ps.take(k as int));
        k = k + 1;
    }
    out
}

impl ConversationMemory {
    /// Folds the older half of the messages (the first `len / 2`) into
    /// the summary and keeps the newer half. The summary there was stays at
    /// the start of the new one, followed by a space: the summary grows.
    fn compact(&mut self)
        ensures
            final(self)@ == compacted(old(self)@),
            final(self)@.summary is Some,
            old(self)@.summary matches Some(s) ==> final(self)@.summary matches Some(t) && t.len()
                > s.len() + 1 && t.take(s.len() + 1int) == s.push(' '),
    {
        let ghost all = views(self.messages@);
        let split = self.messages.len() / 2;
        let recent = self.messages.split_off(split);
        let ghost older = all.take(split as int);
        assert(views(self.messages@) =~= older);
        assert(views(recent@) =~= all.skip(split as int));
        let mut users: usize = 0;
        let mut quotes: Vec<String> = Vec::new();
        let mut k: usize = 0;
        while k < self.messages.len()
            invariant
                k <= self.messages.len(),
                views(self.messages@) == older,
                users <= k,
                users == user_count(older.take(k as int)),
                string_views(quotes@) == previews(older.take(k as int)),
            decreases self.messages.len() - k,
        {
            let m = &self.messages[k];
            assert(older.take(k + 1).drop_last() =~= older.take(k as int));
            assert(older[k as int] == m@);
            if str_eq(m.role.as_str(), "user") {
                users = users + 1;
                match &m.content {
                    Some(c) => {
                        quotes.push(preview_text(c.as_str()));
                    },
                    None => {},
                }
            }
            assert(string_views(quotes@) =~= previews(older.take(k + 1)));
            k = k + 1;
        }
        assert(older.take(self.messages.len() as int) =~= older);
        let n: usize = if quotes.len() <= PREVIEW_COUNT { quotes.len() } else { PREVIEW_COUNT };
        assert(string_views(quotes@).take(quotes.len() as int) =~= string_views(quotes@));
        let mut s = String::new();
        if n == 0 {
            s.append("[早期对话：共");
            push_decimal(&mut s, self.messages.len() as u64);
            s.append("条消息]");
        } else {
            s.append("[早期对话摘要：用户问了");
            push_decimal(&mut s, users as u64);
            s.append("个问题，涉及：");
            let joined = join_first(&quotes, n, "、");
            s.append(joined.as_str());
            s.append("]");
        }
        assert(s@ =~= summary_of(older));
        let merged = match &self.summary {
            Some(e) => {
                let mut t = e.clone();
                t.append(" ");
                t.append(s.as_str());
                t
            },
            None => s,
        };
        self.summary = Some(merged);
        self.messages = recent;
        assert(self@ =~= compacted(old(self)@));
        proof {
            lemma_compaction_accumulates(old(self)@);
        }
    }
}

impl Clone for ConversationMemory {
    fn clone(&self) -> (r: Self)
        ensures
            r@ == self@,
    {
        let ghost ms = views(self.messages@);
        let mut messages: Vec<Message> = Vec::new();
        let mut k: usize = 0;
        while k < self.messages.len()
            invariant
                k <= self.messages.len(),
                ms == views(self.messages@),
                views(messages@) == ms.take(k as int),
            decreases self.messages.len() - k,
        {
            let ghost before = messages@;
            let m = self.messages[k].clone();
            messages.push(m);
            proof {
                lemma_views_push(before, m);
            }
            assert(views(messages@) =~= ms.take(k + 1));
            k = k + 1;
        }
        assert(ms.take(ms.len() as int) =~= ms);
        ConversationMemory {
            messages,
            summary: clone_opt_string(&self.summary),
            max_messages: self.max_messages,
            context_budget: self.context_budget,
        }
    }
}

impl Default for ConversationMemory {
    fn default() -> (r: Self)
        ensures
            r@ == (MemoryView {
                messages: Seq::empty(),
                summary: None,
                max_messages: MAX_MESSAGES as nat,
                context_budget: DEFAULT_CONTEXT_BUDGET as nat,
            }),
    {
        Self::new()
    }
}

impl ConversationMemory {
    /// An empty memory with the default limits.
    pub fn new() -> (r: Self)
        ensures
            r@ == (MemoryView {
                messages: Seq::empty(),
                summary: None,
                max_messages: MAX_MESSAGES as nat,
                context_budget: DEFAULT_CONTEXT_BUDGET as nat,
            }),
    {
        let r = ConversationMemory {
            messages: Vec::new(),
            summary: None,
            max_messages: MAX_MESSAGES,
            context_budget: DEFAULT_CONTEXT_BUDGET,
        };
        assert(views(r.messages@) =~= Seq::<MessageView>::empty());
        r
    }

    /// A memory holding `history`, each message with its role and text
    /// only (tool call details are not kept), with the default limits; when
    /// the history is longer than `MAX_MESSAGES`, its older part is folded
    /// into the summary as `add` does, until at most `MAX_MESSAGES` are kept.
    pub fn from_history(history: &[Message]) -> (r: Self)
        ensures
            r@ == settled(
                MemoryView {
                    messages: history_kept(history@),
                    summary: None,
                    max_messages: MAX_MESSAGES as nat,
                    context_budget: DEFAULT_CONTEXT_BUDGET as nat,
                },
            ),
            r@.messages.len() <= MAX_MESSAGES,
    {
        let ghost hk = history_kept(history@);
        let mut memory = Self::new();
        let mut k: usize = 0;
        assert(hk.take(0) =~= Seq::<MessageView>::empty());
        while k < history.len()
            invariant
                k <= history@.len(),
                hk == history_kept(history@),
                memory@ == (MemoryView {
                    messages: hk.take(k as int),
                    summary: None,
                    max_messages: MAX_MESSAGES as nat,
                    context_budget: DEFAULT_CONTEXT_BUDGET as nat,
                }),
            decreases history@.len() - k,
        {
            let msg = &history[k];
            let ghost before = memory.messages@;
            let m = Message {
                role: msg.role.clone(),
                content: clone_opt_string(&msg.content),
                tool_calls: None,
                tool_call_id: None,
                name: None,
            };
            memory.messages.push(m);
            proof {
                lemma_views_push(before, m);
            }
            assert(hk.take(k + 1) =~= hk.take(k as int).push(hk[k as int]));
            k = k + 1;
        }
        assert(hk.take(history@.len() as int) =~= hk);
        let ghost target = settled(memory@);
        while memory.messages.len() > memory.max_messages && memory.messages.len() >= 2
            invariant
                settled(memory@) == target,
            decreases memory.messages.len(),
        {
            memory.compact();
        }
        proof {
            lemma_settled_within_limit(
                MemoryView {
                    messages: hk,
                    summary: None,
                    max_messages: MAX_MESSAGES as nat,
                    context_budget: DEFAULT_CONTEXT_BUDGET as nat,
                },
            );
        }
        memory
    }

    /// Appends a message from `role` with the text `content`, cut to its
    /// first `MAX_MESSAGE_CHARS` characters followed by `...` when it is
    /// longer; then, when more messages are kept than the limit, folds the
    /// older half into the summary.
    pub fn add(&mut self, role: &str, content: &str)
        ensures
            final(self)@ == added(old(self)@, role@, content@),
    {
        let v = chars_of(content);
        let kept_text = if v.len() > MAX_MESSAGE_CHARS {
            let mut t = String::new();
            push_range(&mut t, &v, 0, MAX_MESSAGE_CHARS);
            t.append("...");
            assert(v@.subrange(0, MAX_MESSAGE_CHARS as int) =~= content@.take(MAX_MESSAGE_CHARS as int));
            t
        } else {
            String::from_str(content)
        };
        assert(kept_text@ == truncated(content@));
        let ghost before = self@;
        self.messages.push(
            Message {
                role: String::from_str(role),
                content: Some(kept_text),
                tool_calls: None,
                tool_call_id: None,
                name: None,
            },
        );
        assert(views(self.messages@) =~= before.messages.push(kept(role@, Some(truncated(content@)))));
        if self.messages.len() > self.max_messages {
            self.compact();
        }
    }

    /// The messages for the next model call: the summary as a `"system"`
    /// message, if there is one, then the newest messages whose text fits,
    /// together with the summary, in the context budget (in bytes), in
    /// chronological order.
    pub fn get_context(&self) -> (r: Vec<Message>)
        ensures
            views(r@) == context_of(self@),
    {
        let ghost m = self@;
        let ghost ms = m.messages;
        let used0: usize = match &self.summary {
            Some(summary) => summary.as_str().as_bytes().len(),
            None => 0,
        };
        let mut used: usize = used0;
        let budget = self.context_budget;
        let mut i: usize = self.messages.len();
        assert(ms.take(i as int) =~= ms);
        // Take messages newest first while they fit.
        loop
            invariant_except_break
                i <= self.messages.len(),
                ms == views(self.messages@),
                budget == m.context_budget,
                used <= summary_bytes(m) + budget,
                context_count(m) == (self.messages.len() - i) + fitting(
                    ms.take(i as int),
                    used as int,
                    budget as int,
                ),
            ensures
                i <= self.messages.len(),
                ms == views(self.messages@),
                i == ms.len() - context_count(m),
            decreases i,
        {
            if i == 0 {
                break;
            }
            let c: usize = match &self.messages[i - 1].content {
                Some(t) => t.as_str().as_bytes().len(),
                None => 0,
            };
            assert(ms.take(i as int).last() == ms[i - 1]);
            assert(ms.take(i as int).drop_last() =~= ms.take(i - 1));
            if c > budget || used > budget - c {
                break;
            }
            used = used + c;
            i = i - 1;
        }
        let mut result: Vec<Message> = Vec::new();
        match &self.summary {
            Some(summary) => {
                result.push(
                    Message {
                        role: String::from_str("system"),
                        content: Some(summary.clone()),
                        tool_calls: None,
                        tool_call_id: None,
                        name: None,
                    },
                );
            },
            None => {},
        }
        let ghost head = views(result@);
        assert(head =~= match m.summary {
            Some(s) => seq![summary_message(s)],
            None => Seq::<MessageView>::empty(),
        });
        let start = i;
        let mut k: usize = start;
        while k < self.messages.len()
            invariant
                start <= k <= self.messages.len(),
                ms == views(self.messages@),
                views(result@) == head + ms.subrange(start as int, k as int),
            decreases self.messages.len() - k,
        {
            let ghost before = result@;
            let cm = self.messages[k].clone();
            result.push(cm);
            proof {
                lemma_views_push(before, cm);
            }
            assert(ms.subrange(start as int, k + 1) =~= ms.subrange(start as int, k as int).push(ms[k as int]));
            assert(views(result@) =~= head + ms.subrange(start as int, k + 1));
            k = k + 1;
        }
        assert(ms.subrange(start as int, ms.len() as int) =~= ms.skip(start as int));
        result
    }

    /// The number of messages, the bytes of their text and of the
    /// summary together, whether there is a summary, and the start of it.
    pub fn stats(&self) -> (r: MemoryStats)
        requires
            total_content_bytes(self@.messages) + summary_bytes(self@) <= usize::MAX,
        ensures
            r.total_messages == self@.messages.len(),
            r.total_chars == total_content_bytes(self@.messages) + summary_bytes(self@),
            r.has_summary == self@.summary is Some,
            r.summary_preview matches Some(p) ==> self@.summary matches Some(s) && p@
                == summary_preview(s),
            r.summary_preview is None ==> self@.summary is None,
    {
        let ghost ms = self@.messages;
        let mut total: usize = 0;
        let mut k: usize = 0;
        while k < self.messages.len()
            invariant
                k <= self.messages.len(),
                ms == views(self.messages@),
                total == total_content_bytes(ms.take(k as int)),
                total_content_bytes(ms) + summary_bytes(self@) <= usize::MAX,
            decreases self.messages.len() - k,
        {
            assert(ms.take(k + 1).drop_last() =~= ms.take(k as int));
            proof {
                lemma_total_content_bytes_prefix(ms, k + 1);
            }
            let c: usize = match &self.messages[k].content {
                Some(t) => t.as_str().as_bytes().len(),
                None => 0,
            };
            total = total + c;
            k = k + 1;
        }
        assert(ms.take(ms.len() as int) =~= ms);
        let (summary_chars, preview) = match &self.summary {
            Some(s) => {
                let v = chars_of(s.as_str());
                let end: usize = if v.len() == 0 {
                    0
                } else if v.len() < SUMMARY_PREVIEW_CHARS {
                    v.len() - 1
                } else {
                    SUMMARY_PREVIEW_CHARS - 1
                };
                let mut p = String::new();
                push_range(&mut p, &v, 0, end);
                assert(v@.subrange(0, end as int) =~= summary_preview(s@));
                (s.as_str().as_bytes().len(), Some(p))
            },
            None => (0, None),
        };
        MemoryStats {
            total_messages: self.messages.len(),
            total_chars: total + summary_chars,
            has_summary: self.summary.is_some(),
            summary_preview: preview,
        }
    }

    /// The number of messages kept.
    pub fn len(&self) -> (r: usize)
        ensures
            r == self@.messages.len(),
    {
        self.messages.len()
    }

    /// Whether no message is kept.
    pub fn is_empty(&self) -> (r: bool)
        ensures
            r == (self@.messages.len() == 0),
    {
        self.messages.len() == 0
    }
}

} // verus!
