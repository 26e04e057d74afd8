//! What holds of the conversation memory across calls: the window stays
//! within its limit, the context stays within its budget and holds the
//! newest messages in order, the summary only grows, and a kept message
//! is never much longer than the limit.

use vstd::prelude::*;
use crate::memory::{
    added, compacted, settled, content_bytes, context_count, context_of, fitting, summary_bytes, summary_of,
    total_content_bytes, truncated, MemoryView, MAX_MESSAGE_CHARS,
};
use crate::message::MessageView;

verus! {

/// While a memory keeps at most `max_messages` messages (and the limit is
/// at least one), it still does after `add`, and it is not empty; the
/// limits do not change.
pub proof fn lemma_add_keeps_window(m: MemoryView, role: Seq<char>, content: Seq<char>)
    requires
        m.max_messages >= 1,
        m.messages.len() <= m.max_messages,
    ensures
        1 <= added(m, role, content).messages.len() <= m.max_messages,
        added(m, role, content).max_messages == m.max_messages,
        added(m, role, content).context_budget == m.context_budget,
{
}

/// Folding the older half of the messages into the summary leaves a
/// summary, and keeps the summary there was at the start of the new one,
/// followed by a space and the (non-empty) summary of the folded messages:
/// the summary only grows.
pub proof fn lemma_compaction_accumulates(m: MemoryView)
    ensures
        compacted(m).summary is Some,
        m.summary matches Some(s) ==> compacted(m).summary matches Some(t) && t.len() > s.len()
            + 1 && t.take(s.len() + 1int) == s.push(' '),
{
    if let Some(s) = m.summary {
        let split = m.messages.len() / 2;
        let x = summary_of(m.messages.take(split as int));
        let t = s + " "@ + x;
        reveal_strlit(" ");
        assert(t.take(s.len() + 1int) =~= s.push(' '));
        assert(x.len() > 0) by {
            reveal_strlit("[早期对话：共");
            reveal_strlit("[早期对话摘要：用户问了");
        }
    }
}

/// Folding again and again until the window fits keeps the summary there
/// was at the start of the summary that results.
pub proof fn lemma_settled_keeps_summary(m: MemoryView)
    ensures
        m.summary matches Some(s) ==> settled(m).summary matches Some(t) && t.len() >= s.len()
            && t.take(s.len() as int) == s,
    decreases m.messages.len(),
{
    if m.messages.len() > m.max_messages && m.messages.len() >= 2 {
        lemma_compaction_accumulates(m);
        lemma_settled_keeps_summary(compacted(m));
        if let Some(s) = m.summary {
            let t1 = compacted(m).summary->0;
            let t = settled(compacted(m)).summary->0;
            assert(t.take(s.len() as int) =~= t.take(t1.len() as int).take(s.len() as int));
            assert(t1.take(s.len() as int) =~= t1.take(s.len() + 1int).take(s.len() as int));
            assert(s.push(' ').take(s.len() as int) =~= s);
        }
    }
}

/// When `add` folds messages away, there is a summary afterwards, and the
/// summary there was is kept at the start of the new one, followed by a
/// space and the summary of the folded messages.
pub proof fn lemma_summary_accumulates(m: MemoryView, role: Seq<char>, content: Seq<char>)
    requires
        m.messages.len() + 1 > m.max_messages,
    ensures
        added(m, role, content).summary is Some,
        m.summary matches Some(s) ==> added(m, role, content).summary matches Some(t) && t.len()
            > s.len() + 1 && t.take(s.len() + 1int) == s.push(' '),
{
    let grown = MemoryView {
        messages: m.messages.push(crate::memory::kept(role, Some(truncated(content)))),
        ..m
    };
    lemma_compaction_accumulates(grown);
}

/// The bytes of two lists of messages together.
pub proof fn lemma_total_concat(a: Seq<MessageView>, b: Seq<MessageView>)
    ensures
        total_content_bytes(a + b) == total_content_bytes(a) + total_content_bytes(b),
    decreases b.len(),
{
    if b.len() == 0 {
        assert(a + b =~= a);
    } else {
        lemma_total_concat(a, b.drop_last());
        assert((a + b).drop_last() =~= a + b.drop_last());
    }
}

/// The messages that `fitting` takes fit in the budget with what was
/// already used, unless what was used exceeds the budget already (and
/// then none is taken).
pub proof fn lemma_fitting_bound(ms: Seq<MessageView>, used: int, budget: int)
    requires
        0 <= used,
    ensures
        fitting(ms, used, budget) <= ms.len(),
        used + total_content_bytes(ms.skip(ms.len() - fitting(ms, used, budget))) <= if used
            > budget {
            used
        } else {
            budget
        },
        used > budget ==> fitting(ms, used, budget) == 0,
    decreases ms.len(),
{
    let k = fitting(ms, used, budget);
    if ms.len() == 0 || used + content_bytes(ms.last()) > budget {
        assert(ms.skip(ms.len() as int) =~= Seq::<MessageView>::empty());
    } else {
        let c = content_bytes(ms.last());
        let rest = ms.drop_last();
        lemma_fitting_bound(rest, used + c, budget);
        let k1 = fitting(rest, used + c, budget);
        assert(ms.skip(ms.len() - k) =~= rest.skip(rest.len() - k1).push(ms.last()));
        assert(rest.skip(rest.len() - k1).push(ms.last()).drop_last() =~= rest.skip(
            rest.len() - k1,
        ));
    }
}

/// The context holds at most as many bytes of text as the budget, or as
/// the summary alone when the summary is larger than the budget (and then
/// it holds no message besides the summary).
pub proof fn lemma_context_within_budget(m: MemoryView)
    ensures
        total_content_bytes(context_of(m)) <= if summary_bytes(m) > m.context_budget {
            summary_bytes(m)
        } else {
            m.context_budget
        },
        summary_bytes(m) > m.context_budget ==> context_count(m) == 0,
{
    let ms = m.messages;
    let k = context_count(m);
    lemma_fitting_bound(ms, summary_bytes(m) as int, m.context_budget as int);
    let head = match m.summary {
        Some(s) => seq![crate::memory::summary_message(s)],
        None => Seq::<MessageView>::empty(),
    };
    let tail = ms.skip(ms.len() - k);
    lemma_total_concat(head, tail);
    assert(total_content_bytes(head) == summary_bytes(m)) by {
        assert(total_content_bytes(Seq::<MessageView>::empty()) == 0);
        if let Some(s) = m.summary {
            assert(head.drop_last() =~= Seq::<MessageView>::empty());
            assert(total_content_bytes(head) == content_bytes(head.last()));
        }
    }
}

/// The context stops at the first message that does not fit: when it
/// leaves out some message, adding the newest one left out would exceed
/// the budget.
pub proof fn lemma_context_is_maximal(m: MemoryView)
    ensures
        context_count(m) <= m.messages.len(),
        context_count(m) < m.messages.len() ==> summary_bytes(m) + total_content_bytes(
            m.messages.skip(m.messages.len() - context_count(m)),
        ) + content_bytes(m.messages[m.messages.len() - context_count(m) - 1])
            > m.context_budget,
{
    lemma_fitting_maximal(m.messages, summary_bytes(m) as int, m.context_budget as int);
}

/// `fitting` stops only at a message that does not fit.
pub proof fn lemma_fitting_maximal(ms: Seq<MessageView>, used: int, budget: int)
    ensures
        fitting(ms, used, budget) <= ms.len(),
        fitting(ms, used, budget) < ms.len() ==> used + total_content_bytes(
            ms.skip(ms.len() - fitting(ms, used, budget)),
        ) + content_bytes(ms[ms.len() - fitting(ms, used, budget) - 1]) > budget,
    decreases ms.len(),
{
    if ms.len() == 0 {
    } else if used + content_bytes(ms.last()) > budget {
        assert(ms.skip(ms.len() as int) =~= Seq::<MessageView>::empty());
    } else {
        let c = content_bytes(ms.last());
        let rest = ms.drop_last();
        lemma_fitting_maximal(rest, used + c, budget);
        let k1 = fitting(rest, used + c, budget);
        if k1 < rest.len() {
            assert(ms.skip(ms.len() - (k1 + 1)) =~= rest.skip(rest.len() - k1).push(ms.last()));
            assert(rest.skip(rest.len() - k1).push(ms.last()).drop_last() =~= rest.skip(
                rest.len() - k1,
            ));
            assert(ms[ms.len() - (k1 + 1) - 1] == rest[rest.len() - k1 - 1]);
        }
    }
}

/// A kept message has at most `MAX_MESSAGE_CHARS + 3` characters of text.
pub proof fn lemma_truncated_bound(content: Seq<char>)
    ensures
        truncated(content).len() <= MAX_MESSAGE_CHARS + 3,
{
    reveal_strlit("...");
}

} // verus!
