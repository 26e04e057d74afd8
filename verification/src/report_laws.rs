//! What holds of the block markers across calls: a saved report without
//! markers is shown as it was saved, a block wrapped at generation time
//! shows the fresh rendering in place when the report is read back,
//! rendering a block again with the same text changes nothing, and
//! rendering a whole report again with the same statistics changes
//! nothing.

use vstd::prelude::*;
use crate::report_blocks::{
    block_replaced, end_marker, fresh_block, live_report, replaced, start_marker, wrapped,
    BLOCK_APP_USAGE_TABLE, BLOCK_CATEGORY_TABLE, BLOCK_DOMAIN_USAGE_TABLE, BLOCK_HOURLY_SUMMARY,
    BLOCK_LOCAL_APP_USAGE, BLOCK_LOCAL_CATEGORY, BLOCK_LOCAL_DOMAIN_USAGE, BLOCK_LOCAL_OVERVIEW,
};
use crate::report_render::{
    app_list, app_table, category_list, category_table, domain_list, domain_table,
    hourly_summary, local_overview,
};
use crate::report_stability::{
    lemma_lone_block_refreshed, lemma_live_kinds_ok, lemma_live_report_kinds, lemma_replaced_all_idempotent, live_kinds,
    live_renderings, marker_prefix,
};
use crate::stats::{AppLocale, DailyStats};
use crate::text::{
    contains, find, lemma_find, lemma_find_first, lemma_strip_trailing_newlines,
    occurs_at, trim_newlines,
};

verus! {

/// A block whose start marker does not occur in the content, or whose
/// first start marker is never followed by an end marker, leaves the
/// content as it is: the block is not inserted, and an unclosed block is
/// not touched.
pub proof fn lemma_unmarked_block_kept(content: Seq<char>, name: Seq<char>, fresh: Seq<char>)
    requires
        !contains(content, start_marker(name)) || (find(content, start_marker(name)) matches Some(
            i,
        ) && !contains(content.skip(i), end_marker(name))),
    ensures
        block_replaced(content, name, fresh) == content,
{
    lemma_find(content, start_marker(name));
    if let Some(i) = find(content, start_marker(name)) {
        lemma_find(content.skip(i), end_marker(name));
    }
}

/// The names of the blocks that `render_report_with_live_stats` renders.
pub open spec fn known_block_names() -> Seq<Seq<char>> {
    seq![
        BLOCK_CATEGORY_TABLE@,
        BLOCK_APP_USAGE_TABLE@,
        BLOCK_HOURLY_SUMMARY@,
        BLOCK_DOMAIN_USAGE_TABLE@,
        BLOCK_LOCAL_OVERVIEW@,
        BLOCK_LOCAL_CATEGORY@,
        BLOCK_LOCAL_APP_USAGE@,
        BLOCK_LOCAL_DOMAIN_USAGE@,
    ]
}

/// A report that holds the start marker of none of the known blocks (a
/// report saved before markers existed, or one with only unknown blocks)
/// is returned exactly as it was saved, whatever the statistics.
pub proof fn lemma_legacy_report_kept(
    content: Seq<char>,
    stats: DailyStats,
    locale: AppLocale,
    category_overrides: Map<Seq<char>, Seq<char>>,
    semantic_overrides: Map<Seq<char>, Seq<char>>,
    shares: Seq<i32>,
)
    requires
        forall|k: int|
            0 <= k < known_block_names().len() ==> !contains(
                content,
                start_marker(#[trigger] known_block_names()[k]),
            ),
    ensures
        live_report(content, stats, locale, category_overrides, semantic_overrides, shares)
            == content,
{
    let names = known_block_names();
    assert forall|k: int| 0 <= k < names.len() implies find(content, start_marker(#[trigger] names[k]))
        is None by {
        lemma_find(content, start_marker(names[k]));
    }
}

/// A block written by `wrap_block` into a report and read back through
/// `replace_block` shows the fresh rendering in place: the text before and
/// after the block is kept, and between them stands the block with the
/// fresh text (trimmed of leading and trailing newlines) between the
/// markers, which is what `wrap_block` gives for that trimmed text when
/// some of it is left. This holds when the saved text is not empty, the
/// text before the block holds no start marker of the name (not even one
/// running into the block's own), the end marker does not occur in the
/// wrapped block before its own end marker, and the text after the block
/// holds no start marker of the name.
pub proof fn lemma_wrapped_block_refreshed(
    before: Seq<char>,
    name: Seq<char>,
    content: Seq<char>,
    after: Seq<char>,
    fresh: Seq<char>,
)
    requires
        content.len() > 0,
        !contains((before + start_marker(name)).drop_last(), start_marker(name)),
        !contains(
            (start_marker(name) + seq!['\n'] + content + (if content.last() == '\n' {
                Seq::empty()
            } else {
                seq!['\n']
            }) + end_marker(name)).drop_last(),
            end_marker(name),
        ),
        !contains(seq!['\n'] + after, start_marker(name)),
    ensures
        block_replaced(before + wrapped(name, content) + after, name, fresh) == before
            + fresh_block(name, fresh).push('\n') + after,
        trim_newlines(fresh).len() > 0 ==> block_replaced(
            before + wrapped(name, content) + after,
            name,
            fresh,
        ) == before + wrapped(name, trim_newlines(fresh)) + after,
{
    let s = start_marker(name);
    let e = end_marker(name);
    let b = fresh_block(name, fresh);
    let nl: Seq<char> = if content.last() == '\n' {
        Seq::empty()
    } else {
        seq!['\n']
    };
    let w = wrapped(name, content);
    let whole = before + w + after;
    let head = s + seq!['\n'] + content + nl;
    let pos: int = head.len() as int;
    let bl: int = before.len() as int;
    assert(w =~= head + e + seq!['\n']);
    assert(e.len() > 1 && s.len() > 1) by {
        reveal_strlit(" -->");
    }
    // The block's start marker is the first one.
    assert(whole.subrange(bl, bl + s.len()) =~= s);
    let bp = (before + s).drop_last();
    assert forall|j: int| 0 <= j < bl implies !occurs_at(whole, s, j) by {
        if occurs_at(whole, s, j) {
            assert(bp.subrange(j, j + s.len()) =~= whole.subrange(j, j + s.len()));
            assert(occurs_at(bp, s, j));
        }
    }
    lemma_find_first(whole, s, bl);
    // Its end marker is the first one after it.
    let t = whole.skip(bl);
    assert(t =~= w + after);
    assert(t.subrange(pos, pos + e.len()) =~= e);
    let wp = (head + e).drop_last();
    assert forall|j: int| 0 <= j < pos implies !occurs_at(t, e, j) by {
        if occurs_at(t, e, j) {
            assert(wp.subrange(j, j + e.len()) =~= t.subrange(j, j + e.len()));
            assert(occurs_at(wp, e, j));
        }
    }
    lemma_find_first(t, e, pos);
    // Nothing after it is replaced.
    let rest = whole.skip(bl + pos + e.len());
    assert(rest =~= seq!['\n'] + after);
    lemma_find(rest, s);
    assert(replaced(rest, s, e, b) == rest);
    assert(whole.take(bl) =~= before);
    assert(block_replaced(whole, name, fresh) =~= before + b.push('\n') + after);
    let tr = trim_newlines(fresh);
    if tr.len() > 0 {
        lemma_strip_trailing_newlines(crate::text::strip_leading_newlines(fresh));
        assert(b.push('\n') =~= wrapped(name, tr));
    }
}

/// Replacing text in front of an occurrence of `p` with text that starts
/// with `p` leaves unchanged the occurrences of `p` that start before it.
pub proof fn lemma_occurrences_before(s: Seq<char>, t: Seq<char>, p: Seq<char>, i: int, k: int)
    requires
        occurs_at(s, p, i),
        t.len() >= p.len(),
        t.take(p.len() as int) == p,
        0 <= k < i,
    ensures
        occurs_at(s.take(i) + t, p, k) == occurs_at(s, p, k),
{
    let u = s.take(i) + t;
    assert forall|m: int| k <= m < k + p.len() implies u[m] == s[m] by {
        if m >= i {
            assert(u[m] == t[m - i]);
            assert(t[m - i] == t.take(p.len() as int)[m - i]);
            assert(s.subrange(i, i + p.len())[m - i] == s[m]);
        }
    }
    assert(u.subrange(k, k + p.len()) =~= s.subrange(k, k + p.len()));
}

/// Rendering a block again with the same text changes nothing, when the
/// end marker occurs in the rendered block only at its end.
pub proof fn lemma_replace_block_idempotent(content: Seq<char>, name: Seq<char>, fresh: Seq<char>)
    requires
        !contains(fresh_block(name, fresh).drop_last(), end_marker(name)),
    ensures
        block_replaced(block_replaced(content, name, fresh), name, fresh) == block_replaced(
            content,
            name,
            fresh,
        ),
{
    let s = start_marker(name);
    let e = end_marker(name);
    let b = fresh_block(name, fresh);
    assert(e.len() > 1 && s.len() > 1) by {
        reveal_strlit(" -->");
    }
    assert(b.take(s.len() as int) =~= s);
    assert(b.subrange(b.len() - e.len(), b.len() as int) =~= e);
    lemma_replaced_idempotent(content, s, e, b);
}

/// `replaced` with a block that opens with the start marker and holds the
/// end marker only at its end is idempotent.
pub proof fn lemma_replaced_idempotent(c: Seq<char>, s: Seq<char>, e: Seq<char>, b: Seq<char>)
    requires
        s.len() > 0,
        e.len() > 0,
        b.len() >= s.len() + e.len(),
        b.take(s.len() as int) == s,
        b.subrange(b.len() - e.len(), b.len() as int) == e,
        !contains(b.drop_last(), e),
    ensures
        replaced(replaced(c, s, e, b), s, e, b) == replaced(c, s, e, b),
    decreases c.len(),
{
    lemma_find(c, s);
    if let Some(i) = find(c, s) {
        lemma_find(c.skip(i), e);
        if let Some(j) = find(c.skip(i), e) {
            let rest = c.skip(i + j + e.len());
            lemma_replaced_idempotent(rest, s, e, b);
            let r = replaced(c, s, e, b);
            let tail = b + replaced(rest, s, e, b);
            assert(r == c.take(i) + tail);
            assert(tail.take(s.len() as int) =~= s);
            // The first start marker of the result is the block's.
            assert forall|k: int| 0 <= k < i implies !occurs_at(r, s, k) by {
                lemma_occurrences_before(c, tail, s, i, k);
            }
            assert(r.subrange(i, i + s.len()) =~= s);
            lemma_find_first(r, s, i);
            // Its first end marker is the block's own.
            let u = r.skip(i);
            assert(u =~= tail);
            let pe = b.len() - e.len();
            assert(u.subrange(pe, pe + e.len()) =~= e);
            assert forall|k: int| 0 <= k < pe implies !occurs_at(u, e, k) by {
                if occurs_at(u, e, k) {
                    assert(b.drop_last().subrange(k, k + e.len()) =~= u.subrange(k, k + e.len()));
                    assert(occurs_at(b.drop_last(), e, k));
                }
            }
            lemma_find_first(u, e, pe);
            assert(r.skip(i + pe + e.len()) =~= replaced(rest, s, e, b));
            assert(r.take(i) =~= c.take(i));
        }
    }
}

// Bridges from plain conditions on names and texts to the side
// conditions of the laws above.

/// A name that holds no `<` and no newline, as every block name does.
pub open spec fn plain_name(name: Seq<char>) -> bool {
    forall|i: int| 0 <= i < name.len() ==> name[i] != '<' && name[i] != '\n'
}

/// A text that opens with `<` and holds no other `<` and no newline, as
/// the markers do.
pub open spec fn marker_like(p: Seq<char>) -> bool {
    &&& p.len() > 0
    &&& p[0] == '<'
    &&& forall|i: int| 1 <= i < p.len() ==> p[i] != '<' && p[i] != '\n'
}

/// The known block names are plain.
pub proof fn lemma_known_names_plain()
    ensures
        forall|k: int|
            0 <= k < known_block_names().len() ==> plain_name(#[trigger] known_block_names()[k]),
{
    reveal_strlit("CATEGORY_TABLE");
    reveal_strlit("APP_USAGE_TABLE");
    reveal_strlit("HOURLY_SUMMARY");
    reveal_strlit("DOMAIN_USAGE_TABLE");
    reveal_strlit("LOCAL_OVERVIEW");
    reveal_strlit("LOCAL_CATEGORY");
    reveal_strlit("LOCAL_APP_USAGE");
    reveal_strlit("LOCAL_DOMAIN_USAGE");
}

/// The markers of a plain name are marker-like, and the end marker does
/// not occur in the start marker.
pub proof fn lemma_markers(name: Seq<char>)
    requires
        plain_name(name),
    ensures
        marker_like(start_marker(name)),
        marker_like(end_marker(name)),
        start_marker(name).len() > 1,
        end_marker(name).len() > 1,
        !contains(start_marker(name), end_marker(name)),
{
    reveal_strlit("<!-- WR_BLOCK_START:");
    reveal_strlit("<!-- WR_BLOCK_END:");
    reveal_strlit(" -->");
    let s = start_marker(name);
    let e = end_marker(name);
    assert forall|i: int| 1 <= i < s.len() implies s[i] != '<' && s[i] != '\n' by {
        if 20 <= i < 20 + name.len() {
            assert(s[i] == name[i - 20]);
        }
    }
    assert forall|i: int| 1 <= i < e.len() implies e[i] != '<' && e[i] != '\n' by {
        if 18 <= i < 18 + name.len() {
            assert(e[i] == name[i - 18]);
        }
    }
    assert forall|i: int| !occurs_at(s, e, i) by {
        if occurs_at(s, e, i) {
            assert(s.subrange(i, i + e.len())[0] == e[0]);
            assert(s[i] == '<');
            assert(i == 0);
            assert(s.subrange(0, e.len() as int)[14] == e[14]);
        }
    }
}

/// An occurrence of a marker-like text in `a + b`, where `b` opens with
/// `<` or a newline and `a` holds no occurrence, lies in `b`.
pub proof fn lemma_occurrence_in_second(a: Seq<char>, b: Seq<char>, p: Seq<char>)
    requires
        marker_like(p),
        b.len() > 0,
        b[0] == '<' || b[0] == '\n',
        !contains(a, p),
    ensures
        contains(a + b, p) ==> contains(b, p),
{
    if contains(a + b, p) {
        let i = choose|i: int| occurs_at(a + b, p, i);
        if i < a.len() {
            if i + p.len() <= a.len() {
                assert((a + b).subrange(i, i + p.len()) =~= a.subrange(i, i + p.len()));
                assert(occurs_at(a, p, i));
            } else {
                let d = a.len() - i;
                assert((a + b).subrange(i, i + p.len())[d] == b[0]);
                assert(p[d] == b[0]);
            }
        } else {
            let j = i - a.len();
            assert(b.subrange(j, j + p.len()) =~= (a + b).subrange(i, i + p.len()));
            assert(occurs_at(b, p, j));
        }
    }
}

/// An occurrence in `[c] + b`, where `c` is not what `p` opens with, lies
/// in `b`.
pub proof fn lemma_occurrence_after_char(c: char, b: Seq<char>, p: Seq<char>)
    requires
        p.len() > 0,
        p[0] != c,
    ensures
        contains(seq![c] + b, p) ==> contains(b, p),
{
    if contains(seq![c] + b, p) {
        let i = choose|i: int| occurs_at(seq![c] + b, p, i);
        if i == 0 {
            assert((seq![c] + b).subrange(0, p.len() as int)[0] == p[0]);
        } else {
            assert(b.subrange(i - 1, i - 1 + p.len()) =~= (seq![c] + b).subrange(i, i + p.len()));
            assert(occurs_at(b, p, i - 1));
        }
    }
}

/// A text shorter than `p` holds no occurrence of it.
pub proof fn lemma_too_short(a: Seq<char>, p: Seq<char>)
    requires
        a.len() < p.len(),
    ensures
        !contains(a, p),
{
}

/// Removing the newlines around a text adds no occurrence.
pub proof fn lemma_trim_newlines_keeps_absence(s: Seq<char>, p: Seq<char>)
    requires
        !contains(s, p),
    ensures
        !contains(trim_newlines(s), p),
{
    lemma_strip_leading_keeps_absence(s, p);
    lemma_strip_trailing_keeps_absence(crate::text::strip_leading_newlines(s), p);
}

/// Dropping the first character adds no occurrence.
pub proof fn lemma_drop_first_keeps_absence(s: Seq<char>, p: Seq<char>)
    requires
        s.len() > 0,
        !contains(s, p),
    ensures
        !contains(s.drop_first(), p),
{
    if contains(s.drop_first(), p) {
        let i = choose|i: int| occurs_at(s.drop_first(), p, i);
        assert(s.subrange(i + 1, i + 1 + p.len()) =~= s.drop_first().subrange(i, i + p.len()));
        assert(occurs_at(s, p, i + 1));
    }
}

/// Dropping the last character adds no occurrence.
pub proof fn lemma_drop_last_keeps_absence(s: Seq<char>, p: Seq<char>)
    requires
        s.len() > 0,
        !contains(s, p),
    ensures
        !contains(s.drop_last(), p),
{
    if contains(s.drop_last(), p) {
        let i = choose|i: int| occurs_at(s.drop_last(), p, i);
        assert(s.subrange(i, i + p.len()) =~= s.drop_last().subrange(i, i + p.len()));
        assert(occurs_at(s, p, i));
    }
}

/// Removing leading newlines adds no occurrence.
pub proof fn lemma_strip_leading_keeps_absence(s: Seq<char>, p: Seq<char>)
    requires
        !contains(s, p),
    ensures
        !contains(crate::text::strip_leading_newlines(s), p),
    decreases s.len(),
{
    if s.len() > 0 && s[0] == '\n' {
        lemma_drop_first_keeps_absence(s, p);
        lemma_strip_leading_keeps_absence(s.drop_first(), p);
    }
}

/// Removing trailing newlines adds no occurrence.
pub proof fn lemma_strip_trailing_keeps_absence(s: Seq<char>, p: Seq<char>)
    requires
        !contains(s, p),
    ensures
        !contains(crate::text::strip_trailing_newlines(s), p),
    decreases s.len(),
{
    if s.len() > 0 && s.last() == '\n' {
        lemma_drop_last_keeps_absence(s, p);
        lemma_strip_trailing_keeps_absence(s.drop_last(), p);
    }
}

/// Rendering a block again with the same text changes nothing, when the
/// block name is plain (as every known one is) and the fresh text holds no
/// end marker of that name.
pub proof fn lemma_replace_block_stable(content: Seq<char>, name: Seq<char>, fresh: Seq<char>)
    requires
        plain_name(name),
        !contains(fresh, end_marker(name)),
    ensures
        block_replaced(block_replaced(content, name, fresh), name, fresh) == block_replaced(
            content,
            name,
            fresh,
        ),
{
    let s = start_marker(name);
    let e = end_marker(name);
    lemma_markers(name);
    let t = trim_newlines(fresh);
    lemma_trim_newlines_keeps_absence(fresh, e);
    let tt: Seq<char> = if t.len() > 0 {
        t.push('\n')
    } else {
        Seq::empty()
    };
    let rest = seq!['\n'] + tt + e.drop_last();
    assert(fresh_block(name, fresh).drop_last() =~= s + rest);
    assert(!contains(rest, e)) by {
        lemma_occurrence_after_char('\n', tt + e.drop_last(), e);
        lemma_too_short(e.drop_last(), e);
        if t.len() > 0 {
            assert(tt + e.drop_last() =~= t + (seq!['\n'] + e.drop_last()));
            lemma_occurrence_after_char('\n', e.drop_last(), e);
            lemma_occurrence_in_second(t, seq!['\n'] + e.drop_last(), e);
        } else {
            assert(tt + e.drop_last() =~= e.drop_last());
        }
        assert(seq!['\n'] + tt + e.drop_last() =~= seq!['\n'] + (tt + e.drop_last()));
    }
    lemma_occurrence_in_second(s, rest, e);
    lemma_replace_block_idempotent(content, name, fresh);
}

/// A block written by `wrap_block` into a report between two texts that
/// hold no start marker of its name, and read back through
/// `replace_block`, shows the fresh rendering in place, when the name is
/// plain (as every known one is) and the saved text holds no end marker.
pub proof fn lemma_wrapped_block_shows_fresh(
    before: Seq<char>,
    name: Seq<char>,
    content: Seq<char>,
    after: Seq<char>,
    fresh: Seq<char>,
)
    requires
        plain_name(name),
        content.len() > 0,
        !contains(content, end_marker(name)),
        !contains(before, start_marker(name)),
        !contains(after, start_marker(name)),
    ensures
        block_replaced(before + wrapped(name, content) + after, name, fresh) == before
            + fresh_block(name, fresh).push('\n') + after,
        trim_newlines(fresh).len() > 0 ==> block_replaced(
            before + wrapped(name, content) + after,
            name,
            fresh,
        ) == before + wrapped(name, trim_newlines(fresh)) + after,
{
    let s = start_marker(name);
    let e = end_marker(name);
    lemma_markers(name);
    // Nothing before the block opens one.
    assert((before + s).drop_last() =~= before + s.drop_last());
    lemma_too_short(s.drop_last(), s);
    lemma_occurrence_in_second(before, s.drop_last(), s);
    // The saved block closes only at its own end marker.
    let nl: Seq<char> = if content.last() == '\n' {
        Seq::empty()
    } else {
        seq!['\n']
    };
    let inner = content + nl + e.drop_last();
    assert((s + seq!['\n'] + content + nl + e).drop_last() =~= s + (seq!['\n'] + inner));
    lemma_too_short(e.drop_last(), e);
    lemma_occurrence_after_char('\n', e.drop_last(), e);
    assert(!contains(inner, e)) by {
        if content.last() == '\n' {
            let c0 = content.drop_last();
            lemma_drop_last_keeps_absence(content, e);
            assert(inner =~= c0 + (seq!['\n'] + e.drop_last()));
            lemma_occurrence_in_second(c0, seq!['\n'] + e.drop_last(), e);
        } else {
            assert(inner =~= content + (seq!['\n'] + e.drop_last()));
            lemma_occurrence_in_second(content, seq!['\n'] + e.drop_last(), e);
        }
    }
    lemma_occurrence_after_char('\n', inner, e);
    lemma_occurrence_in_second(s, seq!['\n'] + inner, e);
    // Nothing after the block opens one.
    lemma_occurrence_after_char('\n', after, s);
    lemma_wrapped_block_refreshed(before, name, content, after, fresh);
}

/// Rendering a report again with the same statistics changes nothing: the
/// report that `render_report_with_live_stats` gives, read once more with
/// the same statistics, locale, overrides and shares, comes back exactly as
/// it is. This holds whenever no block rendering holds `<!-- WR_BLOCK_`,
/// the text that opens every marker.
pub proof fn lemma_live_report_stable(
    content: Seq<char>,
    stats: DailyStats,
    locale: AppLocale,
    category_overrides: Map<Seq<char>, Seq<char>>,
    semantic_overrides: Map<Seq<char>, Seq<char>>,
    shares: Seq<i32>,
)
    requires
        !contains(category_table(stats, locale, category_overrides, shares), marker_prefix()),
        !contains(app_table(stats, locale), marker_prefix()),
        !contains(hourly_summary(stats, locale), marker_prefix()),
        !contains(domain_table(stats, locale, semantic_overrides), marker_prefix()),
        !contains(local_overview(stats, locale), marker_prefix()),
        !contains(category_list(stats, locale, category_overrides, shares), marker_prefix()),
        !contains(app_list(stats, locale), marker_prefix()),
        !contains(domain_list(stats, locale, semantic_overrides), marker_prefix()),
    ensures
        live_report(
            live_report(content, stats, locale, category_overrides, semantic_overrides, shares),
            stats,
            locale,
            category_overrides,
            semantic_overrides,
            shares,
        ) == live_report(content, stats, locale, category_overrides, semantic_overrides, shares),
{
    let r = live_renderings(stats, locale, category_overrides, semantic_overrides, shares);
    assert forall|k: int| 0 <= k < 8 implies !contains(#[trigger] r[k], marker_prefix()) by {
        if k == 0 {
        } else if k == 1 {
        } else if k == 2 {
        } else if k == 3 {
        } else if k == 4 {
        } else if k == 5 {
        } else if k == 6 {
        } else {
        }
    }
    lemma_live_kinds_ok(stats, locale, category_overrides, semantic_overrides, shares);
    let kinds = live_kinds(stats, locale, category_overrides, semantic_overrides, shares);
    let once = live_report(content, stats, locale, category_overrides, semantic_overrides, shares);
    lemma_live_report_kinds(content, stats, locale, category_overrides, semantic_overrides, shares);
    lemma_live_report_kinds(once, stats, locale, category_overrides, semantic_overrides, shares);
    lemma_replaced_all_idempotent(content, kinds);
}

/// A saved report whose only marked block is `BLOCK_CATEGORY_TABLE`, between texts
/// without markers, reads back with that block holding the category table of the summary report
/// rendered from the current statistics; the texts around it are kept.
pub proof fn lemma_category_table_block_refreshed(
    before: Seq<char>,
    content: Seq<char>,
    after: Seq<char>,
    stats: DailyStats,
    locale: AppLocale,
    category_overrides: Map<Seq<char>, Seq<char>>,
    semantic_overrides: Map<Seq<char>, Seq<char>>,
    shares: Seq<i32>,
)
    requires
        content.len() > 0,
        !contains(before, marker_prefix()),
        !contains(content, marker_prefix()),
        !contains(after, marker_prefix()),
        !contains(category_table(stats, locale, category_overrides, shares), marker_prefix()),
    ensures
        live_report(
            before + wrapped(BLOCK_CATEGORY_TABLE@, content) + after,
            stats,
            locale,
            category_overrides,
            semantic_overrides,
            shares,
        ) == before + fresh_block(BLOCK_CATEGORY_TABLE@, category_table(stats, locale, category_overrides, shares)).push('\n') + after,
{
    let r = live_renderings(stats, locale, category_overrides, semantic_overrides, shares);
    assert(r[0] == category_table(stats, locale, category_overrides, shares));
    assert(known_block_names()[0] == BLOCK_CATEGORY_TABLE@);
    lemma_lone_block_refreshed(
        before,
        0,
        content,
        after,
        stats,
        locale,
        category_overrides,
        semantic_overrides,
        shares,
    );
}

/// A saved report whose only marked block is `BLOCK_APP_USAGE_TABLE`, between texts
/// without markers, reads back with that block holding the application table of the summary report (every application)
/// rendered from the current statistics; the texts around it are kept.
pub proof fn lemma_app_table_block_refreshed(
    before: Seq<char>,
    content: Seq<char>,
    after: Seq<char>,
    stats: DailyStats,
    locale: AppLocale,
    category_overrides: Map<Seq<char>, Seq<char>>,
    semantic_overrides: Map<Seq<char>, Seq<char>>,
    shares: Seq<i32>,
)
    requires
        content.len() > 0,
        !contains(before, marker_prefix()),
        !contains(content, marker_prefix()),
        !contains(after, marker_prefix()),
        !contains(app_table(stats, locale), marker_prefix()),
    ensures
        live_report(
            before + wrapped(BLOCK_APP_USAGE_TABLE@, content) + after,
            stats,
            locale,
            category_overrides,
            semantic_overrides,
            shares,
        ) == before + fresh_block(BLOCK_APP_USAGE_TABLE@, app_table(stats, locale)).push('\n') + after,
{
    let r = live_renderings(stats, locale, category_overrides, semantic_overrides, shares);
    assert(r[1] == app_table(stats, locale));
    assert(known_block_names()[1] == BLOCK_APP_USAGE_TABLE@);
    lemma_lone_block_refreshed(
        before,
        1,
        content,
        after,
        stats,
        locale,
        category_overrides,
        semantic_overrides,
        shares,
    );
}

/// A saved report whose only marked block is `BLOCK_HOURLY_SUMMARY`, between texts
/// without markers, reads back with that block holding the hourly activity summary
/// rendered from the current statistics; the texts around it are kept.
pub proof fn lemma_hourly_summary_block_refreshed(
    before: Seq<char>,
    content: Seq<char>,
    after: Seq<char>,
    stats: DailyStats,
    locale: AppLocale,
    category_overrides: Map<Seq<char>, Seq<char>>,
    semantic_overrides: Map<Seq<char>, Seq<char>>,
    shares: Seq<i32>,
)
    requires
        content.len() > 0,
        !contains(before, marker_prefix()),
        !contains(content, marker_prefix()),
        !contains(after, marker_prefix()),
        !contains(hourly_summary(stats, locale), marker_prefix()),
    ensures
        live_report(
            before + wrapped(BLOCK_HOURLY_SUMMARY@, content) + after,
            stats,
            locale,
            category_overrides,
            semantic_overrides,
            shares,
        ) == before + fresh_block(BLOCK_HOURLY_SUMMARY@, hourly_summary(stats, locale)).push('\n') + after,
{
    let r = live_renderings(stats, locale, category_overrides, semantic_overrides, shares);
    assert(r[2] == hourly_summary(stats, locale));
    assert(known_block_names()[2] == BLOCK_HOURLY_SUMMARY@);
    lemma_lone_block_refreshed(
        before,
        2,
        content,
        after,
        stats,
        locale,
        category_overrides,
        semantic_overrides,
        shares,
    );
}

/// A saved report whose only marked block is `BLOCK_DOMAIN_USAGE_TABLE`, between texts
/// without markers, reads back with that block holding the web site table of the summary report (every site)
/// rendered from the current statistics; the texts around it are kept.
pub proof fn lemma_domain_table_block_refreshed(
    before: Seq<char>,
    content: Seq<char>,
    after: Seq<char>,
    stats: DailyStats,
    locale: AppLocale,
    category_overrides: Map<Seq<char>, Seq<char>>,
    semantic_overrides: Map<Seq<char>, Seq<char>>,
    shares: Seq<i32>,
)
    requires
        content.len() > 0,
        !contains(before, marker_prefix()),
        !contains(content, marker_prefix()),
        !contains(after, marker_prefix()),
        !contains(domain_table(stats, locale, semantic_overrides), marker_prefix()),
    ensures
        live_report(
            before + wrapped(BLOCK_DOMAIN_USAGE_TABLE@, content) + after,
            stats,
            locale,
            category_overrides,
            semantic_overrides,
            shares,
        ) == before + fresh_block(BLOCK_DOMAIN_USAGE_TABLE@, domain_table(stats, locale, semantic_overrides)).push('\n') + after,
{
    let r = live_renderings(stats, locale, category_overrides, semantic_overrides, shares);
    assert(r[3] == domain_table(stats, locale, semantic_overrides));
    assert(known_block_names()[3] == BLOCK_DOMAIN_USAGE_TABLE@);
    lemma_lone_block_refreshed(
        before,
        3,
        content,
        after,
        stats,
        locale,
        category_overrides,
        semantic_overrides,
        shares,
    );
}

/// A saved report whose only marked block is `BLOCK_LOCAL_OVERVIEW`, between texts
/// without markers, reads back with that block holding the overview of the local report
/// rendered from the current statistics; the texts around it are kept.
pub proof fn lemma_local_overview_block_refreshed(
    before: Seq<char>,
    content: Seq<char>,
    after: Seq<char>,
    stats: DailyStats,
    locale: AppLocale,
    category_overrides: Map<Seq<char>, Seq<char>>,
    semantic_overrides: Map<Seq<char>, Seq<char>>,
    shares: Seq<i32>,
)
    requires
        content.len() > 0,
        !contains(before, marker_prefix()),
        !contains(content, marker_prefix()),
        !contains(after, marker_prefix()),
        !contains(local_overview(stats, locale), marker_prefix()),
    ensures
        live_report(
            before + wrapped(BLOCK_LOCAL_OVERVIEW@, content) + after,
            stats,
            locale,
            category_overrides,
            semantic_overrides,
            shares,
        ) == before + fresh_block(BLOCK_LOCAL_OVERVIEW@, local_overview(stats, locale)).push('\n') + after,
{
    let r = live_renderings(stats, locale, category_overrides, semantic_overrides, shares);
    assert(r[4] == local_overview(stats, locale));
    assert(known_block_names()[4] == BLOCK_LOCAL_OVERVIEW@);
    lemma_lone_block_refreshed(
        before,
        4,
        content,
        after,
        stats,
        locale,
        category_overrides,
        semantic_overrides,
        shares,
    );
}

/// A saved report whose only marked block is `BLOCK_LOCAL_CATEGORY`, between texts
/// without markers, reads back with that block holding the category list of the local report
/// rendered from the current statistics; the texts around it are kept.
pub proof fn lemma_category_list_block_refreshed(
    before: Seq<char>,
    content: Seq<char>,
    after: Seq<char>,
    stats: DailyStats,
    locale: AppLocale,
    category_overrides: Map<Seq<char>, Seq<char>>,
    semantic_overrides: Map<Seq<char>, Seq<char>>,
    shares: Seq<i32>,
)
    requires
        content.len() > 0,
        !contains(before, marker_prefix()),
        !contains(content, marker_prefix()),
        !contains(after, marker_prefix()),
        !contains(category_list(stats, locale, category_overrides, shares), marker_prefix()),
    ensures
        live_report(
            before + wrapped(BLOCK_LOCAL_CATEGORY@, content) + after,
            stats,
            locale,
            category_overrides,
            semantic_overrides,
            shares,
        ) == before + fresh_block(BLOCK_LOCAL_CATEGORY@, category_list(stats, locale, category_overrides, shares)).push('\n') + after,
{
    let r = live_renderings(stats, locale, category_overrides, semantic_overrides, shares);
    assert(r[5] == category_list(stats, locale, category_overrides, shares));
    assert(known_block_names()[5] == BLOCK_LOCAL_CATEGORY@);
    lemma_lone_block_refreshed(
        before,
        5,
        content,
        after,
        stats,
        locale,
        category_overrides,
        semantic_overrides,
        shares,
    );
}

/// A saved report whose only marked block is `BLOCK_LOCAL_APP_USAGE`, between texts
/// without markers, reads back with that block holding the application list of the local report (the first five)
/// rendered from the current statistics; the texts around it are kept.
pub proof fn lemma_app_list_block_refreshed(
    before: Seq<char>,
    content: Seq<char>,
    after: Seq<char>,
    stats: DailyStats,
    locale: AppLocale,
    category_overrides: Map<Seq<char>, Seq<char>>,
    semantic_overrides: Map<Seq<char>, Seq<char>>,
    shares: Seq<i32>,
)
    requires
        content.len() > 0,
        !contains(before, marker_prefix()),
        !contains(content, marker_prefix()),
        !contains(after, marker_prefix()),
        !contains(app_list(stats, locale), marker_prefix()),
    ensures
        live_report(
            before + wrapped(BLOCK_LOCAL_APP_USAGE@, content) + after,
            stats,
            locale,
            category_overrides,
            semantic_overrides,
            shares,
        ) == before + fresh_block(BLOCK_LOCAL_APP_USAGE@, app_list(stats, locale)).push('\n') + after,
{
    let r = live_renderings(stats, locale, category_overrides, semantic_overrides, shares);
    assert(r[6] == app_list(stats, locale));
    assert(known_block_names()[6] == BLOCK_LOCAL_APP_USAGE@);
    lemma_lone_block_refreshed(
        before,
        6,
        content,
        after,
        stats,
        locale,
        category_overrides,
        semantic_overrides,
        shares,
    );
}

/// A saved report whose only marked block is `BLOCK_LOCAL_DOMAIN_USAGE`, between texts
/// without markers, reads back with that block holding the web site list of the local report (the first five)
/// rendered from the current statistics; the texts around it are kept.
pub proof fn lemma_domain_list_block_refreshed(
    before: Seq<char>,
    content: Seq<char>,
    after: Seq<char>,
    stats: DailyStats,
    locale: AppLocale,
    category_overrides: Map<Seq<char>, Seq<char>>,
    semantic_overrides: Map<Seq<char>, Seq<char>>,
    shares: Seq<i32>,
)
    requires
        content.len() > 0,
        !contains(before, marker_prefix()),
        !contains(content, marker_prefix()),
        !contains(after, marker_prefix()),
        !contains(domain_list(stats, locale, semantic_overrides), marker_prefix()),
    ensures
        live_report(
            before + wrapped(BLOCK_LOCAL_DOMAIN_USAGE@, content) + after,
            stats,
            locale,
            category_overrides,
            semantic_overrides,
            shares,
        ) == before + fresh_block(BLOCK_LOCAL_DOMAIN_USAGE@, domain_list(stats, locale, semantic_overrides)).push('\n') + after,
{
    let r = live_renderings(stats, locale, category_overrides, semantic_overrides, shares);
    assert(r[7] == domain_list(stats, locale, semantic_overrides));
    assert(known_block_names()[7] == BLOCK_LOCAL_DOMAIN_USAGE@);
    lemma_lone_block_refreshed(
        before,
        7,
        content,
        after,
        stats,
        locale,
        category_overrides,
        semantic_overrides,
        shares,
    );
}

} // verus!
