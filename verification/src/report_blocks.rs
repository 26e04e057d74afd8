//! Placeholder markers around the statistics blocks of a saved daily
//! report, and the read-time replacement of those blocks with freshly
//! rendered statistics.
//!
//! A generator wraps each rendered block with `wrap_block`, which puts it
//! between `<!-- WR_BLOCK_START:NAME -->` and `<!-- WR_BLOCK_END:NAME -->`.
//! When the report is read back, `render_report_with_live_stats` replaces
//! the text between each pair of markers with a rendering of the current
//! statistics. A report without markers is returned as it is, and a block
//! that does not occur in the saved report is not inserted.

use vstd::prelude::*;
use vstd::string::StringExecFns;
use crate::report_render::{
    app_list, app_table, category_list, category_table, domain_list, domain_table,
    hourly_summary, local_overview, render_app_usage_table, render_category_table,
    render_domain_usage_table, render_hourly_summary, render_local_app_usage_list,
    render_local_category_list, render_local_domain_usage_list, render_local_overview,
};
use crate::stats::{AppLocale, DailyStats, NameOverrides};
use crate::text::{
    chars_of, find, find_in, lemma_find, lemma_find_from, lemma_find_from_skip, push_all,
    push_char, push_range, trim_newlines, trim_newlines_bounds,
};

verus! {

pub const BLOCK_CATEGORY_TABLE: &'static str = "CATEGORY_TABLE";
pub const BLOCK_APP_USAGE_TABLE: &'static str = "APP_USAGE_TABLE";
pub const BLOCK_HOURLY_SUMMARY: &'static str = "HOURLY_SUMMARY";
pub const BLOCK_DOMAIN_USAGE_TABLE: &'static str = "DOMAIN_USAGE_TABLE";
pub const BLOCK_LOCAL_OVERVIEW: &'static str = "LOCAL_OVERVIEW";
pub const BLOCK_LOCAL_CATEGORY: &'static str = "LOCAL_CATEGORY";
pub const BLOCK_LOCAL_APP_USAGE: &'static str = "LOCAL_APP_USAGE";
pub const BLOCK_LOCAL_DOMAIN_USAGE: &'static str = "LOCAL_DOMAIN_USAGE";

pub const BLOCK_PREFIX_START: &'static str = "<!-- WR_BLOCK_START:";
pub const BLOCK_PREFIX_END: &'static str = "<!-- WR_BLOCK_END:";
pub const MARKER_SUFFIX: &'static str = " -->";

/// The marker that opens the block `name`.
pub open spec fn start_marker(name: Seq<char>) -> Seq<char> {
    BLOCK_PREFIX_START@ + name + MARKER_SUFFIX@
}

/// The marker that closes the block `name`.
pub open spec fn end_marker(name: Seq<char>) -> Seq<char> {
    BLOCK_PREFIX_END@ + name + MARKER_SUFFIX@
}

/// What `wrap_block` gives for `content`: nothing for empty content,
/// otherwise the content between the two markers, each marker on a line
/// of its own.
pub open spec fn wrapped(name: Seq<char>, content: Seq<char>) -> Seq<char> {
    if content.len() == 0 {
        Seq::empty()
    } else {
        start_marker(name) + seq!['\n'] + content + (if content.last() == '\n' {
            Seq::empty()
        } else {
            seq!['\n']
        }) + end_marker(name) + seq!['\n']
    }
}

/// The text that replaces a marked block: the start marker and a newline,
/// the fresh rendering without its leading and trailing newlines followed
/// by one newline (left out when nothing remains of it), then the end
/// marker.
pub open spec fn fresh_block(name: Seq<char>, fresh: Seq<char>) -> Seq<char> {
    let t = trim_newlines(fresh);
    start_marker(name) + seq!['\n'] + (if t.len() > 0 {
        t.push('\n')
    } else {
        Seq::empty()
    }) + end_marker(name)
}

/// `s` with every block that opens with `start` and closes with the first
/// `end` after it replaced by `block`, scanning from the left. An opening
/// marker without a closing one ends the scan and is kept with all that
/// follows it.
pub open spec fn replaced(s: Seq<char>, start: Seq<char>, end: Seq<char>, block: Seq<char>) -> Seq<
    char,
>
    decreases s.len(),
{
    if end.len() == 0 {
        s
    } else {
        match find(s, start) {
            None => s,
            Some(i) => match find(s.skip(i), end) {
                None => s,
                Some(j) => {
                    proof {
                        lemma_find(s, start);
                        lemma_find(s.skip(i), end);
                    }
                    s.take(i) + block + replaced(s.skip(i + j + end.len()), start, end, block)
                },
            },
        }
    }
}

/// What `replace_block` gives: the blocks named `name` in `content`
/// replaced by `fresh`.
pub open spec fn block_replaced(content: Seq<char>, name: Seq<char>, fresh: Seq<char>) -> Seq<char> {
    replaced(content, start_marker(name), end_marker(name), fresh_block(name, fresh))
}

/// The characters of `prefix`, then `name`, then the marker suffix.
fn marker(prefix: &str, name: &str) -> (r: Vec<char>)
    ensures
        r@ == prefix@ + name@ + MARKER_SUFFIX@,
{
    let mut r = chars_of(prefix);
    let mut n = chars_of(name);
    let mut suffix = chars_of(MARKER_SUFFIX);
    r.append(&mut n);
    r.append(&mut suffix);
    r
}

/// Puts `content` between the start and end markers of the block `name`.
/// Empty content gives an empty string: no empty block is inserted.
pub fn wrap_block(name: &str, content: &str) -> (r: String)
    ensures
        r@ == wrapped(name@, content@),
{
    let c = chars_of(content);
    if c.len() == 0 {
        return String::new();
    }
    let mut out = String::new();
    out.append(BLOCK_PREFIX_START);
    out.append(name);
    out.append(MARKER_SUFFIX);
    push_char(&mut out, '\n');
    out.append(content);
    if c[c.len() - 1] != '\n' {
        push_char(&mut out, '\n');
    }
    out.append(BLOCK_PREFIX_END);
    out.append(name);
    out.append(MARKER_SUFFIX);
    push_char(&mut out, '\n');
    assert(out@ =~= wrapped(name@, content@));
    out
}

/// Replaces the text of every block named `name` in `content` with `fresh`
/// (trimmed of leading and trailing newlines). Content without the block,
/// or with an opening marker that is never closed, is kept as it is.
pub fn replace_block(content: &str, name: &str, fresh: &str) -> (r: String)
    ensures
        r@ == block_replaced(content@, name@, fresh@),
{
    let v = chars_of(content);
    let start = marker(BLOCK_PREFIX_START, name);
    let end = marker(BLOCK_PREFIX_END, name);
    let f = chars_of(fresh);
    let (lo, hi) = trim_newlines_bounds(&f);
    let mut block: Vec<char> = start.clone();
    block.push('\n');
    let ghost pre_trim = block@;
    let mut k: usize = lo;
    while k < hi
        invariant
            lo <= k <= hi <= f.len(),
            block@ == pre_trim + f@.subrange(lo as int, k as int),
        decreases hi - k,
    {
        block.push(f[k]);
        assert(f@.subrange(lo as int, k + 1) =~= f@.subrange(lo as int, k as int).push(f@[k as int]));
        k = k + 1;
    }
    if lo < hi {
        block.push('\n');
    }
    let mut e2 = end.clone();
    block.append(&mut e2);
    let ghost b = fresh_block(name@, fresh@);
    assert(start@ == start_marker(name@));
    assert(block@ =~= b);

    let ghost s = start_marker(name@);
    let ghost e = end_marker(name@);
    assert(e.len() > 0) by {
        reveal_strlit(" -->");
    }
    let mut out = String::new();
    let mut cursor: usize = 0;
    assert(v@.skip(0) =~= v@);
    assert(out@ + replaced(v@.skip(0), s, e, b) =~= replaced(v@, s, e, b));
    loop
        invariant
            cursor <= v.len(),
            v@ == content@,
            start@ == s,
            end@ == e,
            block@ == b,
            s == start_marker(name@),
            e == end_marker(name@),
            b == fresh_block(name@, fresh@),
            e.len() > 0,
            out@ + replaced(v@.skip(cursor as int), s, e, b) == replaced(v@, s, e, b),
        decreases v.len() - cursor,
    {
        let ghost rest = v@.skip(cursor as int);
        proof {
            lemma_find_from_skip(v@, s, cursor as int, 0);
            lemma_find_from(v@, s, cursor as int);
        }
        match find_in(&v, &start, cursor) {
            None => {
                assert(find(rest, s) is None);
                assert(replaced(rest, s, e, b) == rest);
                push_range(&mut out, &v, cursor, v.len());
                assert(v@.subrange(cursor as int, v.len() as int) =~= rest);
                return out;
            },
            Some(abs_start) => {
                let ghost i = abs_start - cursor;
                proof {
                    lemma_find_from_skip(v@, e, abs_start as int, 0);
                    assert(rest.skip(i) =~= v@.skip(abs_start as int));
                }
                match find_in(&v, &end, abs_start) {
                    None => {
                        push_range(&mut out, &v, cursor, v.len());
                        assert(v@.subrange(cursor as int, v.len() as int) =~= rest);
                        return out;
                    },
                    Some(abs_end0) => {
                        proof {
                            lemma_find(rest.skip(i), e);
                        }
                        let abs_end = abs_end0 + end.len();
                        push_range(&mut out, &v, cursor, abs_start);
                        push_all(&mut out, &block);
                        proof {
                            let j = abs_end0 - abs_start;
                            assert(rest.take(i) =~= v@.subrange(cursor as int, abs_start as int));
                            assert(rest.skip(i + j + e.len()) =~= v@.skip(abs_end as int));
                        }
                        cursor = abs_end;
                    },
                }
            },
        }
    }
}



/// The report as `render_report_with_live_stats` gives it: every known
/// block replaced, in a fixed order, by its rendering from `stats`.
pub open spec fn live_report(
    content: Seq<char>,
    stats: DailyStats,
    locale: AppLocale,
    category_overrides: Map<Seq<char>, Seq<char>>,
    semantic_overrides: Map<Seq<char>, Seq<char>>,
    shares: Seq<i32>,
) -> Seq<char> {
    let o1 = block_replaced(
        content,
        BLOCK_CATEGORY_TABLE@,
        category_table(stats, locale, category_overrides, shares),
    );
    let o2 = block_replaced(o1, BLOCK_APP_USAGE_TABLE@, app_table(stats, locale));
    let o3 = block_replaced(o2, BLOCK_HOURLY_SUMMARY@, hourly_summary(stats, locale));
    let o4 = block_replaced(
        o3,
        BLOCK_DOMAIN_USAGE_TABLE@,
        domain_table(stats, locale, semantic_overrides),
    );
    let o5 = block_replaced(o4, BLOCK_LOCAL_OVERVIEW@, local_overview(stats, locale));
    let o6 = block_replaced(
        o5,
        BLOCK_LOCAL_CATEGORY@,
        category_list(stats, locale, category_overrides, shares),
    );
    let o7 = block_replaced(o6, BLOCK_LOCAL_APP_USAGE@, app_list(stats, locale));
    block_replaced(o7, BLOCK_LOCAL_DOMAIN_USAGE@, domain_list(stats, locale, semantic_overrides))
}

/// Re-renders every known statistics block of a saved report from the
/// current `stats`. Blocks that are not marked in `content`, and text
/// outside the markers, are kept as they are. `shares` holds the share of
/// each category of `stats.category_usage` in percent, in the same order.
pub fn render_report_with_live_stats(
    content: &str,
    stats: &DailyStats,
    locale: AppLocale,
    category_overrides: &NameOverrides,
    semantic_overrides: &NameOverrides,
    shares: &Vec<i32>,
) -> (r: String)
    requires
        shares.len() == stats.category_usage.len(),
    ensures
        r@ == live_report(
            content@,
            *stats,
            locale,
            category_overrides@,
            semantic_overrides@,
            shares@,
        ),
{
    let fresh = render_category_table(stats, locale, category_overrides, shares);
    let output = replace_block(content, BLOCK_CATEGORY_TABLE, fresh.as_str());
    let fresh = render_app_usage_table(stats, locale);
    let output = replace_block(output.as_str(), BLOCK_APP_USAGE_TABLE, fresh.as_str());
    let fresh = render_hourly_summary(stats, locale);
    let output = replace_block(output.as_str(), BLOCK_HOURLY_SUMMARY, fresh.as_str());
    let fresh = render_domain_usage_table(stats, locale, semantic_overrides);
    let output = replace_block(output.as_str(), BLOCK_DOMAIN_USAGE_TABLE, fresh.as_str());
    let fresh = render_local_overview(stats, locale);
    let output = replace_block(output.as_str(), BLOCK_LOCAL_OVERVIEW, fresh.as_str());
    let fresh = render_local_category_list(stats, locale, category_overrides, shares);
    let output = replace_block(output.as_str(), BLOCK_LOCAL_CATEGORY, fresh.as_str());
    let fresh = render_local_app_usage_list(stats, locale);
    let output = replace_block(output.as_str(), BLOCK_LOCAL_APP_USAGE, fresh.as_str());
    let fresh = render_local_domain_usage_list(stats, locale, semantic_overrides);
    replace_block(output.as_str(), BLOCK_LOCAL_DOMAIN_USAGE, fresh.as_str())
}

} // verus!
