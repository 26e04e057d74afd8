//! Why rendering a whole report again with the same statistics changes
//! nothing (the law itself is `lemma_live_report_stable` in
//! `report_laws`). The argument rests on the shape of the markers: each
//! opens with `<!-- WR_BLOCK_`, holds no other `<`, no newline and no `>`
//! but its last character, so two markers cannot overlap, and a rendered
//! block holds markers only at its two ends. A text is `fixed` for a kind
//! of block when every block of that kind in it is already the rendered
//! one; replacing a kind makes the text fixed for it, keeps it fixed for
//! every other kind, and leaves a fixed text as it is.

use vstd::prelude::*;
use crate::report_blocks::{end_marker, fresh_block, live_report, replaced, start_marker, wrapped};
use crate::report_laws::{
    known_block_names, lemma_occurrences_before, lemma_trim_newlines_keeps_absence,
    lemma_wrapped_block_shows_fresh,
};
use crate::report_render::{
    app_list, app_table, category_list, category_table, domain_list, domain_table,
    hourly_summary, local_overview,
};
use crate::stats::{AppLocale, DailyStats};
use crate::text::{
    contains, find, find_from, lemma_find, lemma_find_first, lemma_find_from, lemma_find_from_skip,
    occurs_at, trim_newlines,
};

verus! {

/// What every marker opens with.
pub open spec fn marker_prefix() -> Seq<char> {
    "<!-- WR_BLOCK_"@
}

/// The shape of a marker: it opens with `marker_prefix()`, holds no other
/// `<` and no newline, and holds `>` only as its last character.
pub open spec fn marker_ok(m: Seq<char>) -> bool {
    let p = marker_prefix();
    &&& p.len() > 0
    &&& p[0] == '<'
    &&& m.len() > p.len()
    &&& m.take(p.len() as int) == p
    &&& forall|i: int| 1 <= i < m.len() ==> m[i] != '<' && m[i] != '\n'
    &&& forall|i: int| 0 <= i < m.len() - 1 ==> m[i] != '>'
    &&& m.last() == '>'
}

/// The shape of a rendered block: it opens with the start marker `s`,
/// closes with the end marker `e`, and the marker prefix occurs in it only
/// at those two places.
pub open spec fn block_ok(b: Seq<char>, s: Seq<char>, e: Seq<char>) -> bool {
    &&& b.len() >= s.len() + e.len()
    &&& b.take(s.len() as int) == s
    &&& b.skip(b.len() - e.len()) == e
    &&& forall|i: int| occurs_at(b, marker_prefix(), i) ==> i == 0 || i == b.len() - e.len()
}

/// `x` is what `replaced` leaves unchanged because every block it finds is
/// already `b`.
pub open spec fn fixed(x: Seq<char>, s: Seq<char>, e: Seq<char>, b: Seq<char>) -> bool
    decreases x.len(),
{
    if e.len() == 0 {
        true
    } else {
        match find(x, s) {
            None => true,
            Some(i) => match find(x.skip(i), e) {
                None => true,
                Some(j) => {
                    proof {
                        lemma_find(x, s);
                        lemma_find(x.skip(i), e);
                    }
                    x.subrange(i, i + j + e.len()) == b && fixed(x.skip(i + j + e.len()), s, e, b)
                },
            },
        }
    }
}

/// Where an occurrence in `a + b` lies.
pub proof fn lemma_occ_split(a: Seq<char>, b: Seq<char>, m: Seq<char>, h: int)
    requires
        occurs_at(a + b, m, h),
    ensures
        h + m.len() <= a.len() ==> occurs_at(a, m, h),
        h >= a.len() ==> occurs_at(b, m, h - a.len()),
{
    if h + m.len() <= a.len() {
        assert((a + b).subrange(h, h + m.len()) =~= a.subrange(h, h + m.len()));
    }
    if h >= a.len() {
        assert((a + b).subrange(h, h + m.len()) =~= b.subrange(h - a.len(), h - a.len() + m.len()));
    }
}

/// Occurrences in `a` and in `b` are occurrences in `a + b`.
pub proof fn lemma_occ_join(a: Seq<char>, b: Seq<char>, m: Seq<char>, h: int)
    ensures
        occurs_at(a, m, h) ==> occurs_at(a + b, m, h),
        occurs_at(b, m, h) ==> occurs_at(a + b, m, a.len() + h),
{
    if occurs_at(a, m, h) {
        assert((a + b).subrange(h, h + m.len()) =~= a.subrange(h, h + m.len()));
    }
    if occurs_at(b, m, h) {
        assert((a + b).subrange(a.len() + h, a.len() + h + m.len()) =~= b.subrange(h, h + m.len()));
    }
}

/// A marker does not run from `a` into a `b` that opens with `<`.
pub proof fn lemma_no_straddle(a: Seq<char>, b: Seq<char>, m: Seq<char>, h: int)
    requires
        marker_ok(m),
        b.len() > 0,
        b[0] == '<',
        0 <= h < a.len(),
        h + m.len() > a.len(),
    ensures
        !occurs_at(a + b, m, h),
{
    if occurs_at(a + b, m, h) {
        assert((a + b).subrange(h, h + m.len())[a.len() - h] == (a + b)[a.len() as int]);
    }
}

/// Two markers that occur at the same place are the same.
pub proof fn lemma_same_place(x: Seq<char>, m: Seq<char>, n: Seq<char>, i: int)
    requires
        marker_ok(m),
        marker_ok(n),
        occurs_at(x, m, i),
        occurs_at(x, n, i),
    ensures
        m == n,
{
    if m.len() < n.len() {
        assert(x.subrange(i, i + m.len())[m.len() - 1] == x[i + m.len() - 1]);
        assert(x.subrange(i, i + n.len())[m.len() - 1] == x[i + m.len() - 1]);
    } else if n.len() < m.len() {
        assert(x.subrange(i, i + m.len())[n.len() - 1] == x[i + n.len() - 1]);
        assert(x.subrange(i, i + n.len())[n.len() - 1] == x[i + n.len() - 1]);
    } else {
        assert(m =~= n);
    }
}

/// A marker that starts inside a rendered block followed by anything is
/// the block's start marker at its start or its end marker at its end.
pub proof fn lemma_marker_in_block(
    b: Seq<char>,
    s: Seq<char>,
    e: Seq<char>,
    z: Seq<char>,
    m: Seq<char>,
    i: int,
)
    requires
        marker_ok(m),
        marker_ok(s),
        marker_ok(e),
        block_ok(b, s, e),
        occurs_at(b + z, m, i),
        0 <= i < b.len(),
    ensures
        (i == 0 && m == s) || (i == b.len() - e.len() && m == e),
{
    let bz = b + z;
    let p = marker_prefix();
    let ep = b.len() - e.len();
    assert(bz.subrange(i, i + p.len()) =~= m.take(p.len() as int)) by {
        assert(bz.subrange(i, i + p.len()) =~= bz.subrange(i, i + m.len()).take(p.len() as int));
    }
    if i + p.len() <= b.len() {
        assert(b.subrange(i, i + p.len()) =~= bz.subrange(i, i + p.len()));
        assert(occurs_at(b, p, i));
    } else {
        assert(bz[i] == b[i]);
        assert(b[i] == b.skip(ep)[i - ep]);
        assert(bz.subrange(i, i + m.len())[0] == bz[i]);
        assert(false);
    }
    if i == 0 {
        assert(bz.subrange(0, s.len() as int) =~= b.take(s.len() as int));
        lemma_same_place(bz, m, s, 0);
    } else {
        assert(bz.subrange(ep, ep + e.len()) =~= b.skip(ep));
        lemma_same_place(bz, m, e, ep);
    }
}

/// Searching `u + v`, where no occurrence starts inside `u`, is searching
/// `v`.
pub proof fn lemma_find_after(u: Seq<char>, v: Seq<char>, p: Seq<char>)
    requires
        forall|t: int| 0 <= t < u.len() ==> !occurs_at(u + v, p, t),
    ensures
        find(u + v, p) == (match find(v, p) {
            Some(i) => Some(i + u.len()),
            None => None::<int>,
        }),
{
    let x = u + v;
    lemma_find_from_skip(x, p, u.len() as int, 0);
    assert(x.skip(u.len() as int) =~= v);
    lemma_find_from(x, p, 0);
    lemma_find_from(x, p, u.len() as int);
    match find_from(x, p, 0) {
        Some(i) => {
            assert(i >= u.len());
            assert(find_from(x, p, u.len() as int) is Some);
            let i2 = find_from(x, p, u.len() as int)->0;
            assert(!(i2 < i));
            assert(!(i < i2));
        },
        None => {
            if find_from(x, p, u.len() as int) is Some {
                let i2 = find_from(x, p, u.len() as int)->0;
                assert(occurs_at(x, p, i2));
            }
        },
    }
}

/// A prefix in which no start marker begins does not matter to `fixed`.
pub proof fn lemma_fixed_after(u: Seq<char>, v: Seq<char>, s: Seq<char>, e: Seq<char>, b: Seq<char>)
    requires
        forall|t: int| 0 <= t < u.len() ==> !occurs_at(u + v, s, t),
    ensures
        fixed(u + v, s, e, b) == fixed(v, s, e, b),
{
    if e.len() > 0 {
        lemma_find_after(u, v, s);
        let x = u + v;
        lemma_find(v, s);
        if let Some(i) = find(v, s) {
            let h = i + u.len();
            assert(x.skip(h) =~= v.skip(i));
            lemma_find(v.skip(i), e);
            if let Some(j) = find(v.skip(i), e) {
                assert(x.subrange(h, h + j + e.len()) =~= v.subrange(i, i + j + e.len()));
                assert(x.skip(h + j + e.len()) =~= v.skip(i + j + e.len()));
            }
        }
    }
}

/// A text without the end marker is fixed.
pub proof fn lemma_fixed_without_end(x: Seq<char>, s: Seq<char>, e: Seq<char>, b: Seq<char>)
    requires
        !contains(x, e),
    ensures
        fixed(x, s, e, b),
{
    if e.len() > 0 {
        lemma_find(x, s);
        if let Some(i) = find(x, s) {
            lemma_find(x.skip(i), e);
            if let Some(j) = find(x.skip(i), e) {
                assert(x.subrange(i + j, i + j + e.len()) =~= x.skip(i).subrange(j, j + e.len()));
                assert(occurs_at(x, e, i + j));
            }
        }
    }
}

/// `replaced` keeps a fixed text.
pub proof fn lemma_fixed_kept(x: Seq<char>, s: Seq<char>, e: Seq<char>, b: Seq<char>)
    requires
        fixed(x, s, e, b),
    ensures
        replaced(x, s, e, b) == x,
    decreases x.len(),
{
    if e.len() > 0 {
        lemma_find(x, s);
        if let Some(i) = find(x, s) {
            lemma_find(x.skip(i), e);
            if let Some(j) = find(x.skip(i), e) {
                let k = i + j + e.len();
                lemma_fixed_kept(x.skip(k), s, e, b);
                assert(x.take(i) + x.subrange(i, k) + x.skip(k) =~= x);
            }
        }
    }
}

/// A rendered block holds its end marker only at its end.
pub proof fn lemma_block_closes_once(b: Seq<char>, s: Seq<char>, e: Seq<char>)
    requires
        marker_ok(s),
        marker_ok(e),
        s != e,
        block_ok(b, s, e),
    ensures
        !contains(b.drop_last(), e),
{
    let p = marker_prefix();
    if contains(b.drop_last(), e) {
        let t = choose|t: int| occurs_at(b.drop_last(), e, t);
        assert(b.subrange(t, t + e.len()) =~= b.drop_last().subrange(t, t + e.len()));
        assert forall|q: int| 0 <= q < p.len() implies b[t + q] == p[q] by {
            assert(b.subrange(t, t + e.len())[q] == b[t + q]);
            assert(e.take(p.len() as int)[q] == e[q]);
        }
        assert(b.subrange(t, t + p.len()) =~= p);
        assert(occurs_at(b, p, t));
        assert(t == 0);
        assert(b.subrange(0, s.len() as int) =~= b.take(s.len() as int));
        lemma_same_place(b, e, s, 0);
    }
}

/// After `replaced`, the text is fixed.
pub proof fn lemma_replaced_fixed(c: Seq<char>, s: Seq<char>, e: Seq<char>, b: Seq<char>)
    requires
        marker_ok(s),
        marker_ok(e),
        s != e,
        block_ok(b, s, e),
    ensures
        fixed(replaced(c, s, e, b), s, e, b),
    decreases c.len(),
{
    lemma_block_closes_once(b, s, e);
    lemma_find(c, s);
    if let Some(i) = find(c, s) {
        lemma_find(c.skip(i), e);
        if let Some(j) = find(c.skip(i), e) {
            let rest = c.skip(i + j + e.len());
            lemma_replaced_fixed(rest, s, e, b);
            let r = replaced(c, s, e, b);
            let tail = b + replaced(rest, s, e, b);
            assert(r == c.take(i) + tail);
            assert(tail.take(s.len() as int) =~= s);
            assert forall|k: int| 0 <= k < i implies !occurs_at(r, s, k) by {
                lemma_occurrences_before(c, tail, s, i, k);
            }
            assert(r.subrange(i, i + s.len()) =~= s);
            lemma_find_first(r, s, i);
            let u = r.skip(i);
            assert(u =~= tail);
            let pe = b.len() - e.len();
            assert forall|q: int| 0 <= q < e.len() implies u[pe + q] == e[q] by {
                assert(b.skip(pe)[q] == b[pe + q]);
            }
            assert(u.subrange(pe, pe + e.len()) =~= e);
            assert forall|k: int| 0 <= k < pe implies !occurs_at(u, e, k) by {
                if occurs_at(u, e, k) {
                    assert(b.drop_last().subrange(k, k + e.len()) =~= u.subrange(k, k + e.len()));
                    assert(occurs_at(b.drop_last(), e, k));
                }
            }
            lemma_find_first(u, e, pe);
            assert(r.subrange(i, i + pe + e.len()) =~= b);
            assert(r.skip(i + pe + e.len()) =~= replaced(rest, s, e, b));
        }
    }
}

/// An occurrence of a marker other than the block's own in `a + bj + z`
/// lies wholly in `a` or wholly in `z`.
pub proof fn lemma_occ_around_block(
    a: Seq<char>,
    bj: Seq<char>,
    z: Seq<char>,
    sj: Seq<char>,
    ej: Seq<char>,
    m: Seq<char>,
    t: int,
)
    requires
        marker_ok(m),
        marker_ok(sj),
        marker_ok(ej),
        block_ok(bj, sj, ej),
        m != sj,
        m != ej,
        occurs_at(a + bj + z, m, t),
    ensures
        t < a.len() && occurs_at(a, m, t) || t >= a.len() + bj.len() && occurs_at(
            z,
            m,
            t - a.len() - bj.len(),
        ),
{
    let y = a + bj + z;
    assert(y =~= a + (bj + z));
    assert(bj[0] == sj[0]) by {
        assert(bj.take(sj.len() as int)[0] == bj[0]);
    }
    if t < a.len() {
        if t + m.len() > a.len() {
            lemma_no_straddle(a, bj + z, m, t);
        }
        lemma_occ_split(a, bj + z, m, t);
    } else if t < a.len() + bj.len() {
        lemma_occ_split(a, bj + z, m, t);
        lemma_marker_in_block(bj, sj, ej, z, m, t - a.len());
    } else {
        lemma_occ_split(a + bj, z, m, t);
    }
}

/// `replaced` adds no occurrence of another marker.
pub proof fn lemma_replaced_keeps_absence(
    w: Seq<char>,
    sj: Seq<char>,
    ej: Seq<char>,
    bj: Seq<char>,
    m: Seq<char>,
)
    requires
        marker_ok(m),
        marker_ok(sj),
        marker_ok(ej),
        block_ok(bj, sj, ej),
        m != sj,
        m != ej,
        !contains(w, m),
    ensures
        !contains(replaced(w, sj, ej, bj), m),
    decreases w.len(),
{
    lemma_find(w, sj);
    if let Some(i) = find(w, sj) {
        lemma_find(w.skip(i), ej);
        if let Some(j) = find(w.skip(i), ej) {
            let k = i + j + ej.len();
            let a = w.take(i);
            let w2 = w.skip(k);
            assert(w =~= a + w.skip(i));
            assert(w =~= w.take(k) + w2);
            assert forall|t: int| !occurs_at(a, m, t) by {
                lemma_occ_join(a, w.skip(i), m, t);
            }
            assert forall|t: int| !occurs_at(w2, m, t) by {
                lemma_occ_join(w.take(k), w2, m, t);
            }
            lemma_replaced_keeps_absence(w2, sj, ej, bj, m);
            let z = replaced(w2, sj, ej, bj);
            assert forall|t: int| !occurs_at(a + bj + z, m, t) by {
                if occurs_at(a + bj + z, m, t) {
                    lemma_occ_around_block(a, bj, z, sj, ej, m, t);
                }
            }
        }
    }
}

/// What follows a marker of another kind is fixed when the whole is:
/// a block that opens before the marker cannot close after it.
pub proof fn lemma_fixed_past_marker(
    u: Seq<char>,
    v: Seq<char>,
    n: Seq<char>,
    s: Seq<char>,
    e: Seq<char>,
    b: Seq<char>,
)
    requires
        marker_ok(n),
        marker_ok(s),
        marker_ok(e),
        n != s,
        n != e,
        block_ok(b, s, e),
        u.len() >= n.len(),
        u.skip(u.len() - n.len()) == n,
        fixed(u + v, s, e, b),
    ensures
        fixed(v, s, e, b),
    decreases u.len(),
{
    let x = u + v;
    let p = marker_prefix();
    let pn = u.len() - n.len();
    assert(x.subrange(pn, pn + n.len()) =~= n) by {
        assert forall|q: int| 0 <= q < n.len() implies x[pn + q] == n[q] by {
            assert(u.skip(pn)[q] == u[pn + q]);
        }
    }
    lemma_find(x, s);
    match find(x, s) {
        None => {
            assert forall|t: int| !occurs_at(v, s, t) by {
                lemma_occ_join(u, v, s, t);
            }
            lemma_find(v, s);
        },
        Some(h) => {
            if h >= u.len() {
                lemma_fixed_after(u, v, s, e, b);
            } else {
                assert(x[h] == '<') by {
                    assert(x.subrange(h, h + s.len())[0] == x[h]);
                }
                if h >= pn {
                    if h == pn {
                        lemma_same_place(x, s, n, pn);
                    } else {
                        assert(x.subrange(pn, pn + n.len())[h - pn] == x[h]);
                    }
                }
                assert(h < pn);
                lemma_find(x.skip(h), e);
                match find(x.skip(h), e) {
                    None => {
                        assert forall|t: int| !occurs_at(v, e, t) by {
                            if occurs_at(v, e, t) {
                                lemma_occ_join(u, v, e, t);
                                assert(x.skip(h).subrange(u.len() + t - h, u.len() + t - h + e.len())
                                    =~= x.subrange(u.len() + t, u.len() + t + e.len()));
                                assert(occurs_at(x.skip(h), e, u.len() + t - h));
                            }
                        }
                        lemma_fixed_without_end(v, s, e, b);
                    },
                    Some(g) => {
                        let k = h + g + e.len();
                        assert(x.subrange(h + g, k) =~= x.skip(h).subrange(g, g + e.len()));
                        if h + g < pn {
                            if k > pn {
                                assert(x =~= x.take(pn) + x.skip(pn));
                                assert(x.skip(pn)[0] == x.subrange(pn, pn + n.len())[0]);
                                lemma_no_straddle(x.take(pn), x.skip(pn), e, h + g);
                                assert(x.take(pn).subrange(h + g, k) =~= x.subrange(h + g, k));
                            }
                            assert(x.skip(k) =~= u.skip(k) + v);
                            assert(u.skip(k).skip(u.skip(k).len() - n.len()) =~= n);
                            lemma_fixed_past_marker(u.skip(k), v, n, s, e, b);
                        } else if h + g == pn {
                            lemma_same_place(x, e, n, pn);
                        } else {
                            let o = pn - h;
                            assert(x.subrange(h, k) == b);
                            assert forall|q: int| 0 <= q < p.len() implies b[o + q] == p[q] by {
                                assert(x.subrange(h, k)[o + q] == x[pn + q]);
                                assert(x.subrange(pn, pn + n.len())[q] == x[pn + q]);
                                assert(n.take(p.len() as int)[q] == n[q]);
                            }
                            assert(b.subrange(o, o + p.len()) =~= p);
                            assert(occurs_at(b, p, o));
                        }
                    },
                }
            }
        },
    }
}

/// Where a block opened inside `a1` closes, in `a1 + m + w` and in
/// `a1 + bj + z` alike: inside `a1`, or nowhere.
pub proof fn lemma_close_in_prefix(
    a1: Seq<char>,
    m: Seq<char>,
    w: Seq<char>,
    z: Seq<char>,
    sj: Seq<char>,
    ej: Seq<char>,
    bj: Seq<char>,
    s: Seq<char>,
    e: Seq<char>,
    b: Seq<char>,
)
    requires
        marker_ok(sj),
        marker_ok(ej),
        marker_ok(s),
        marker_ok(e),
        e != sj,
        e != ej,
        block_ok(bj, sj, ej),
        block_ok(b, s, e),
        a1.len() > 0,
        m.len() >= sj.len(),
        m.take(sj.len() as int) == sj,
        !contains(w, e) ==> !contains(z, e),
        find(a1 + m + w, e) matches Some(g) ==> (a1 + m + w).subrange(0, g + e.len()) == b,
    ensures
        find(a1 + m + w, e) is None ==> find(a1 + bj + z, e) is None,
        find(a1 + m + w, e) matches Some(g) ==> g + e.len() <= a1.len() && find(a1 + bj + z, e)
            == Some(g),
{
    let p = marker_prefix();
    let xs = a1 + m + w;
    let ys = a1 + bj + z;
    assert(xs =~= a1 + (m + w));
    assert(ys =~= a1 + (bj + z));
    assert(m[0] == '<') by {
        assert(m.take(sj.len() as int)[0] == m[0]);
        assert(sj.take(p.len() as int)[0] == sj[0]);
    }
    assert((m + w)[0] == m[0]);
    lemma_find(xs, e);
    match find(xs, e) {
        None => {
            assert forall|t: int| !occurs_at(w, e, t) by {
                lemma_occ_join(a1 + m, w, e, t);
            }
            assert forall|t: int| !occurs_at(ys, e, t) by {
                if occurs_at(a1 + bj + z, e, t) {
                    lemma_occ_around_block(a1, bj, z, sj, ej, e, t);
                    lemma_occ_join(a1, m + w, e, t);
                }
            }
            lemma_find(ys, e);
        },
        Some(g) => {
            if g + e.len() <= a1.len() {
                lemma_occ_split(a1, m + w, e, g);
                lemma_occ_join(a1, bj + z, e, g);
                assert forall|t: int| 0 <= t < g implies !occurs_at(ys, e, t) by {
                    if occurs_at(a1 + bj + z, e, t) {
                        lemma_occ_around_block(a1, bj, z, sj, ej, e, t);
                        lemma_occ_join(a1, m + w, e, t);
                    }
                }
                lemma_find_first(ys, e, g);
            } else if g < a1.len() {
                lemma_no_straddle(a1, m + w, e, g);
            } else if g == a1.len() {
                assert(xs.subrange(g, g + sj.len()) =~= sj) by {
                    assert forall|q: int| 0 <= q < sj.len() implies xs[g + q] == sj[q] by {
                        assert(m.take(sj.len() as int)[q] == m[q]);
                    }
                }
                lemma_same_place(xs, e, sj, g);
            } else {
                let o: int = a1.len() as int;
                assert forall|q: int| 0 <= q < p.len() implies b[o + q] == p[q] by {
                    assert(xs.subrange(0, g + e.len())[o + q] == xs[o + q]);
                    assert(m.take(sj.len() as int)[q] == m[q]);
                    assert(sj.take(p.len() as int)[q] == sj[q]);
                }
                assert(b.subrange(o, o + p.len()) =~= p);
                assert(occurs_at(b, p, o));
            }
        },
    }
}

/// The case of `lemma_fixed_across_block` where no block opens in `a`.
pub proof fn lemma_fixed_across_block_late(
    a: Seq<char>,
    m: Seq<char>,
    w: Seq<char>,
    z: Seq<char>,
    sj: Seq<char>,
    ej: Seq<char>,
    bj: Seq<char>,
    s: Seq<char>,
    e: Seq<char>,
    b: Seq<char>,
)
    requires
        marker_ok(sj),
        marker_ok(ej),
        marker_ok(s),
        marker_ok(e),
        s != sj,
        s != ej,
        e != ej,
        block_ok(bj, sj, ej),
        block_ok(b, s, e),
        m.len() >= ej.len(),
        m.skip(m.len() - ej.len()) == ej,
        fixed(w, s, e, b) ==> fixed(z, s, e, b),
        fixed(a + (m + w), s, e, b),
        forall|t: int| 0 <= t < a.len() ==> !occurs_at(a + (m + w), s, t),
    ensures
        fixed(a + bj + z, s, e, b),
{
    assert forall|t: int| 0 <= t < (a + bj).len() implies !occurs_at(a + bj + z, s, t) by {
        if occurs_at(a + bj + z, s, t) {
            lemma_occ_around_block(a, bj, z, sj, ej, s, t);
            lemma_occ_join(a, m + w, s, t);
        }
    }
    lemma_fixed_after(a + bj, z, s, e, b);
    lemma_fixed_after(a, m + w, s, e, b);
    lemma_fixed_past_marker(m, w, ej, s, e, b);
}

/// Replacing one block of another kind, whose text holds no marker but its
/// own two, keeps a fixed prefix-and-rest fixed.
#[verifier::spinoff_prover]
#[verifier::rlimit(40)]
pub proof fn lemma_fixed_across_block(
    a: Seq<char>,
    m: Seq<char>,
    w: Seq<char>,
    z: Seq<char>,
    sj: Seq<char>,
    ej: Seq<char>,
    bj: Seq<char>,
    s: Seq<char>,
    e: Seq<char>,
    b: Seq<char>,
)
    requires
        marker_ok(sj),
        marker_ok(ej),
        marker_ok(s),
        marker_ok(e),
        s != sj,
        s != ej,
        e != sj,
        e != ej,
        block_ok(bj, sj, ej),
        block_ok(b, s, e),
        m.len() >= sj.len(),
        m.take(sj.len() as int) == sj,
        m.len() >= ej.len(),
        m.skip(m.len() - ej.len()) == ej,
        fixed(w, s, e, b) ==> fixed(z, s, e, b),
        !contains(w, e) ==> !contains(z, e),
        fixed(a + m + w, s, e, b),
    ensures
        fixed(a + bj + z, s, e, b),
    decreases a.len(),
{
    let p = marker_prefix();
    let x = a + m + w;
    let y = a + bj + z;
    assert(x =~= a + (m + w));
    assert(y =~= a + (bj + z));
    lemma_find(x, s);
    if find(x, s) is Some && find(x, s)->0 < a.len() {
        let h = find(x, s)->0;
        assert(m[0] == '<') by {
            assert(m.take(sj.len() as int)[0] == m[0]);
            assert(sj.take(p.len() as int)[0] == sj[0]);
        }
        assert((m + w)[0] == m[0]);
        if h + s.len() > a.len() {
            lemma_no_straddle(a, m + w, s, h);
        }
        lemma_occ_split(a, m + w, s, h);
        lemma_occ_join(a, bj + z, s, h);
        assert forall|t: int| 0 <= t < h implies !occurs_at(y, s, t) by {
            if occurs_at(a + bj + z, s, t) {
                lemma_occ_around_block(a, bj, z, sj, ej, s, t);
                lemma_occ_join(a, m + w, s, t);
            }
        }
        lemma_find_first(y, s, h);
        let a1 = a.skip(h);
        assert(x.skip(h) =~= a1 + m + w);
        assert(y.skip(h) =~= a1 + bj + z);
        lemma_find(x.skip(h), e);
        assert(find(x.skip(h), e) == find(a1 + m + w, e));
        if let Some(g) = find(x.skip(h), e) {
            assert(x.subrange(h, h + g + e.len()) =~= (a1 + m + w).subrange(0, g + e.len()));
        }
        lemma_close_in_prefix(a1, m, w, z, sj, ej, bj, s, e, b);
        if let Some(g) = find(x.skip(h), e) {
            let k = h + g + e.len();
            let a2 = a.skip(k);
            assert(k <= a.len());
            assert(x.subrange(h, k) =~= y.subrange(h, k));
            assert(x.skip(k) =~= a2 + m + w);
            assert(y.skip(k) =~= a2 + bj + z);
            lemma_fixed_across_block(a2, m, w, z, sj, ej, bj, s, e, b);
        }
    } else {
        lemma_fixed_across_block_late(a, m, w, z, sj, ej, bj, s, e, b);
    }
}

/// Replacing the blocks of one kind keeps a text fixed for another kind,
/// when both rendered blocks hold no marker but their own two.
pub proof fn lemma_replaced_keeps_fixed(
    x: Seq<char>,
    sj: Seq<char>,
    ej: Seq<char>,
    bj: Seq<char>,
    s: Seq<char>,
    e: Seq<char>,
    b: Seq<char>,
)
    requires
        marker_ok(sj),
        marker_ok(ej),
        marker_ok(s),
        marker_ok(e),
        sj != ej,
        s != sj,
        s != ej,
        e != sj,
        e != ej,
        block_ok(bj, sj, ej),
        block_ok(b, s, e),
        fixed(x, s, e, b),
    ensures
        fixed(replaced(x, sj, ej, bj), s, e, b),
    decreases x.len(),
{
    lemma_find(x, sj);
    if let Some(i) = find(x, sj) {
        lemma_find(x.skip(i), ej);
        if let Some(j) = find(x.skip(i), ej) {
            let k = i + j + ej.len();
            let a = x.take(i);
            let m = x.subrange(i, k);
            let w = x.skip(k);
            let z = replaced(w, sj, ej, bj);
            if fixed(w, s, e, b) {
                lemma_replaced_keeps_fixed(w, sj, ej, bj, s, e, b);
            }
            if !contains(w, e) {
                lemma_replaced_keeps_absence(w, sj, ej, bj, e);
            }
            let xi = x.skip(i);
            assert(xi.subrange(0, sj.len() as int) =~= sj) by {
                assert(xi.subrange(0, sj.len() as int) =~= x.subrange(i, i + sj.len()));
            }
            if j < sj.len() {
                assert(xi.subrange(j, j + ej.len())[0] == xi[j]);
                assert(xi.subrange(0, sj.len() as int)[j] == xi[j]);
                assert(ej.take(marker_prefix().len() as int)[0] == ej[0]);
                if j == 0 {
                    lemma_same_place(xi, ej, sj, 0);
                }
            }
            assert(m.take(sj.len() as int) =~= sj);
            assert(m.skip(m.len() - ej.len()) =~= ej) by {
                assert(m.skip(m.len() - ej.len()) =~= xi.subrange(j, j + ej.len()));
            }
            assert(x =~= a + m + w);
            lemma_fixed_across_block(a, m, w, z, sj, ej, bj, s, e, b);
        }
    }
}

/// The text after replacing, in order, the blocks of each kind: a kind is
/// its start marker, its end marker and its rendered block.
pub open spec fn replaced_all(c: Seq<char>, kinds: Seq<(Seq<char>, Seq<char>, Seq<char>)>) -> Seq<
    char,
>
    decreases kinds.len(),
{
    if kinds.len() == 0 {
        c
    } else {
        let k = kinds.last();
        replaced(replaced_all(c, kinds.drop_last()), k.0, k.1, k.2)
    }
}

/// Each kind has well-shaped markers and a rendered block that holds no
/// marker but its own two, and no two kinds share a marker.
pub open spec fn kinds_ok(kinds: Seq<(Seq<char>, Seq<char>, Seq<char>)>) -> bool {
    &&& forall|k: int|
        0 <= k < kinds.len() ==> {
            &&& marker_ok(#[trigger] kinds[k].0)
            &&& marker_ok(kinds[k].1)
            &&& kinds[k].0 != kinds[k].1
            &&& block_ok(kinds[k].2, kinds[k].0, kinds[k].1)
        }
    &&& forall|k: int, l: int|
        0 <= k < kinds.len() && 0 <= l < kinds.len() && k != l ==> {
            &&& #[trigger] kinds[k].0 != #[trigger] kinds[l].0
            &&& kinds[k].0 != kinds[l].1
            &&& kinds[k].1 != kinds[l].1
        }
}

/// After replacing every kind in order, the text is fixed for every kind.
pub proof fn lemma_replaced_all_fixed(c: Seq<char>, kinds: Seq<(Seq<char>, Seq<char>, Seq<char>)>)
    requires
        kinds_ok(kinds),
    ensures
        forall|k: int|
            0 <= k < kinds.len() ==> fixed(
                replaced_all(c, kinds),
                #[trigger] kinds[k].0,
                kinds[k].1,
                kinds[k].2,
            ),
    decreases kinds.len(),
{
    if kinds.len() > 0 {
        let prev = kinds.drop_last();
        let n = kinds.len() - 1;
        assert forall|k: int| 0 <= k < prev.len() implies prev[k] == kinds[k] by {}
        assert(kinds_ok(prev)) by {
            assert forall|k: int, l: int|
                0 <= k < prev.len() && 0 <= l < prev.len() && k != l implies {
                &&& #[trigger] prev[k].0 != #[trigger] prev[l].0
                &&& prev[k].0 != prev[l].1
                &&& prev[k].1 != prev[l].1
            } by {
                assert(prev[k] == kinds[k]);
                assert(prev[l] == kinds[l]);
                assert(kinds[k].0 != kinds[l].0);
            }
        }
        lemma_replaced_all_fixed(c, prev);
        let x = replaced_all(c, prev);
        let last = kinds[n];
        assert(marker_ok(last.0));
        assert forall|k: int| 0 <= k < kinds.len() implies fixed(
            replaced(x, last.0, last.1, last.2),
            #[trigger] kinds[k].0,
            kinds[k].1,
            kinds[k].2,
        ) by {
            if k == n {
                lemma_replaced_fixed(x, last.0, last.1, last.2);
            } else {
                assert(prev[k] == kinds[k]);
                assert(marker_ok(kinds[k].0));
                assert(kinds[k].0 != kinds[n].0);
                assert(kinds[n].0 != kinds[k].1);
                assert(kinds[k].1 != kinds[n].1);
                lemma_replaced_keeps_fixed(
                    x,
                    last.0,
                    last.1,
                    last.2,
                    kinds[k].0,
                    kinds[k].1,
                    kinds[k].2,
                );
            }
        }
    }
}

/// Replacing kinds for which a text is already fixed keeps it.
pub proof fn lemma_replaced_all_kept(x: Seq<char>, kinds: Seq<(Seq<char>, Seq<char>, Seq<char>)>)
    requires
        forall|k: int|
            0 <= k < kinds.len() ==> fixed(x, #[trigger] kinds[k].0, kinds[k].1, kinds[k].2),
    ensures
        replaced_all(x, kinds) == x,
    decreases kinds.len(),
{
    if kinds.len() > 0 {
        let prev = kinds.drop_last();
        assert forall|k: int| 0 <= k < prev.len() implies fixed(
            x,
            #[trigger] prev[k].0,
            prev[k].1,
            prev[k].2,
        ) by {
            assert(prev[k] == kinds[k]);
        }
        lemma_replaced_all_kept(x, prev);
        let n = kinds.len() - 1;
        assert(fixed(x, kinds[n].0, kinds[n].1, kinds[n].2));
        lemma_fixed_kept(x, kinds[n].0, kinds[n].1, kinds[n].2);
    }
}

/// Replacing well-shaped kinds a second time changes nothing.
pub proof fn lemma_replaced_all_idempotent(
    c: Seq<char>,
    kinds: Seq<(Seq<char>, Seq<char>, Seq<char>)>,
)
    requires
        kinds_ok(kinds),
    ensures
        replaced_all(replaced_all(c, kinds), kinds) == replaced_all(c, kinds),
{
    lemma_replaced_all_fixed(c, kinds);
    lemma_replaced_all_kept(replaced_all(c, kinds), kinds);
}

/// A block name that holds no `<`, no `>` and no newline, as every known
/// one does.
pub open spec fn marker_name(name: Seq<char>) -> bool {
    forall|i: int| 0 <= i < name.len() ==> name[i] != '<' && name[i] != '>' && name[i] != '\n'
}

/// The markers of such a name are well shaped and differ.
pub proof fn lemma_name_markers(name: Seq<char>)
    requires
        marker_name(name),
    ensures
        marker_ok(start_marker(name)),
        marker_ok(end_marker(name)),
        start_marker(name) != end_marker(name),
{
    reveal_strlit("<!-- WR_BLOCK_START:");
    reveal_strlit("<!-- WR_BLOCK_END:");
    reveal_strlit(" -->");
    reveal_strlit("<!-- WR_BLOCK_");
    let p = marker_prefix();
    let s = start_marker(name);
    let e = end_marker(name);
    assert(s.take(p.len() as int) =~= p);
    assert(e.take(p.len() as int) =~= p);
    assert forall|i: int| 1 <= i < s.len() implies s[i] != '<' && s[i] != '\n' by {
        if 20 <= i < 20 + name.len() {
            assert(s[i] == name[i - 20]);
        }
    }
    assert forall|i: int| 0 <= i < s.len() - 1 implies s[i] != '>' by {
        if 20 <= i < 20 + name.len() {
            assert(s[i] == name[i - 20]);
        }
    }
    assert forall|i: int| 1 <= i < e.len() implies e[i] != '<' && e[i] != '\n' by {
        if 18 <= i < 18 + name.len() {
            assert(e[i] == name[i - 18]);
        }
    }
    assert forall|i: int| 0 <= i < e.len() - 1 implies e[i] != '>' by {
        if 18 <= i < 18 + name.len() {
            assert(e[i] == name[i - 18]);
        }
    }
    assert(s[14] != e[14]);
}

/// Markers of different names differ, and no start marker is an end
/// marker.
pub proof fn lemma_name_markers_differ(n1: Seq<char>, n2: Seq<char>)
    ensures
        n1 != n2 ==> start_marker(n1) != start_marker(n2),
        n1 != n2 ==> end_marker(n1) != end_marker(n2),
        start_marker(n1) != end_marker(n2),
{
    reveal_strlit("<!-- WR_BLOCK_START:");
    reveal_strlit("<!-- WR_BLOCK_END:");
    reveal_strlit(" -->");
    assert(start_marker(n1).len() == 24 + n1.len());
    assert(start_marker(n2).len() == 24 + n2.len());
    assert(end_marker(n1).len() == 22 + n1.len());
    assert(end_marker(n2).len() == 22 + n2.len());
    if start_marker(n1) == start_marker(n2) {
        assert(n1.len() == n2.len());
        assert(n1 =~= start_marker(n1).subrange(20, 20 + n1.len() as int));
        assert(n2 =~= start_marker(n2).subrange(20, 20 + n1.len() as int));
    }
    if end_marker(n1) == end_marker(n2) {
        assert(n1.len() == n2.len());
        assert(n1 =~= end_marker(n1).subrange(18, 18 + n1.len() as int));
        assert(n2 =~= end_marker(n2).subrange(18, 18 + n1.len() as int));
    }
    assert(start_marker(n1)[14] != end_marker(n2)[14]);
}

/// A newline added at the end of a text without the marker prefix adds no
/// occurrence of it.
pub proof fn lemma_push_newline_keeps_absence(t: Seq<char>)
    requires
        !contains(t, marker_prefix()),
    ensures
        !contains(t.push('\n'), marker_prefix()),
{
    reveal_strlit("<!-- WR_BLOCK_");
    let p = marker_prefix();
    let u = t.push('\n');
    assert forall|q: int| !occurs_at(u, p, q) by {
        if occurs_at(u, p, q) {
            if q + p.len() <= t.len() {
                assert(t.subrange(q, q + p.len()) =~= u.subrange(q, q + p.len()));
                assert(occurs_at(t, p, q));
            } else {
                let d = t.len() - q;
                assert(u.subrange(q, q + p.len())[d] == u[t.len() as int]);
            }
        }
    }
}

/// A text between the two markers of a name, after a newline, that holds
/// no marker prefix, makes a well-shaped block.
pub proof fn lemma_framed_block_ok(name: Seq<char>, body: Seq<char>)
    requires
        marker_name(name),
        !contains(body, marker_prefix()),
    ensures
        block_ok(
            start_marker(name) + seq!['\n'] + body + end_marker(name),
            start_marker(name),
            end_marker(name),
        ),
{
    lemma_name_markers(name);
    reveal_strlit("<!-- WR_BLOCK_");
    let p = marker_prefix();
    let s = start_marker(name);
    let e = end_marker(name);
    let b = s + seq!['\n'] + body + e;
    let ls: int = s.len() as int;
    let pe: int = ls + 1 + body.len();
    assert(b.take(ls) =~= s);
    assert(b.skip(pe) =~= e);
    assert forall|i: int| occurs_at(b, p, i) implies i == 0 || i == pe by {
        assert(b.subrange(i, i + p.len())[0] == b[i]);
        if 0 < i < ls {
            assert(b[i] == s[i]);
        } else if i == ls {
            assert(b[i] == '\n');
        } else if ls < i < pe {
            let q = i - ls - 1;
            if q + p.len() <= body.len() {
                assert(body.subrange(q, q + p.len()) =~= b.subrange(i, i + p.len()));
                assert(occurs_at(body, p, q));
            } else {
                let d = pe - i;
                assert(b.subrange(i, i + p.len())[d] == b[pe]);
                assert(b[pe] == e[0]);
                assert(e.take(p.len() as int)[0] == e[0]);
            }
        } else if i > pe {
            assert(b[i] == e[i - pe]);
        }
    }
}

/// A block rendered from a text without the marker prefix holds the
/// prefix only in its two markers.
pub proof fn lemma_fresh_block_ok(name: Seq<char>, fresh: Seq<char>)
    requires
        marker_name(name),
        !contains(fresh, marker_prefix()),
    ensures
        block_ok(fresh_block(name, fresh), start_marker(name), end_marker(name)),
{
    reveal_strlit("<!-- WR_BLOCK_");
    let p = marker_prefix();
    let t = trim_newlines(fresh);
    lemma_trim_newlines_keeps_absence(fresh, p);
    let tt: Seq<char> = if t.len() > 0 {
        t.push('\n')
    } else {
        Seq::empty()
    };
    if t.len() > 0 {
        lemma_push_newline_keeps_absence(t);
    } else {
        assert(!contains(tt, p));
    }
    assert(fresh_block(name, fresh) =~= start_marker(name) + seq!['\n'] + tt + end_marker(name));
    lemma_framed_block_ok(name, tt);
}

/// A text without the marker prefix holds no marker.
pub proof fn lemma_no_prefix_no_marker(u: Seq<char>, m: Seq<char>)
    requires
        marker_ok(m),
        !contains(u, marker_prefix()),
    ensures
        !contains(u, m),
{
    let p = marker_prefix();
    assert forall|t: int| !occurs_at(u, m, t) by {
        if occurs_at(u, m, t) {
            assert forall|q: int| 0 <= q < p.len() implies u[t + q] == p[q] by {
                assert(u.subrange(t, t + m.len())[q] == u[t + q]);
                assert(m.take(p.len() as int)[q] == m[q]);
            }
            assert(u.subrange(t, t + p.len()) =~= p);
            assert(occurs_at(u, p, t));
        }
    }
}

/// A block between two texts without the marker prefix (the second after
/// a newline) is the only place where markers occur: no other marker does.
pub proof fn lemma_lone_kind_absent(
    before: Seq<char>,
    bk: Seq<char>,
    after: Seq<char>,
    sk: Seq<char>,
    ek: Seq<char>,
    m: Seq<char>,
)
    requires
        marker_ok(m),
        marker_ok(sk),
        marker_ok(ek),
        block_ok(bk, sk, ek),
        m != sk,
        m != ek,
        !contains(before, marker_prefix()),
        !contains(after, marker_prefix()),
    ensures
        !contains(before + bk + (seq!['\n'] + after), m),
{
    let z = seq!['\n'] + after;
    lemma_no_prefix_no_marker(before, m);
    lemma_no_prefix_no_marker(after, m);
    assert forall|t: int| !occurs_at(before + bk + z, m, t) by {
        if occurs_at(before + bk + z, m, t) {
            lemma_occ_around_block(before, bk, z, sk, ek, m, t);
            let t2 = t - before.len() - bk.len();
            if t2 == 0 {
                assert(z.subrange(0, m.len() as int)[0] == z[0]);
                assert(m.take(marker_prefix().len() as int)[0] == m[0]);
            } else {
                lemma_occ_split(seq!['\n'], after, m, t2);
            }
        }
    }
}

/// A text without the start marker is what `replaced` gives back.
pub proof fn lemma_unopened_kept(x: Seq<char>, s: Seq<char>, e: Seq<char>, b: Seq<char>)
    requires
        !contains(x, s),
    ensures
        replaced(x, s, e, b) == x,
{
    lemma_find(x, s);
}

/// When the text holds the start marker of one kind only, replacing the
/// kinds in order changes it once, at that kind.
pub proof fn lemma_replaced_all_lone(
    x: Seq<char>,
    y: Seq<char>,
    kinds: Seq<(Seq<char>, Seq<char>, Seq<char>)>,
    k: int,
    n: int,
)
    requires
        0 <= k < kinds.len(),
        0 <= n <= kinds.len(),
        forall|l: int|
            0 <= l < kinds.len() && l != k ==> !contains(x, #[trigger] kinds[l].0) && !contains(
                y,
                kinds[l].0,
            ),
        replaced(x, kinds[k].0, kinds[k].1, kinds[k].2) == y,
    ensures
        replaced_all(x, kinds.take(n)) == (if n <= k {
            x
        } else {
            y
        }),
    decreases n,
{
    if n == 0 {
        assert(kinds.take(0) =~= Seq::<(Seq<char>, Seq<char>, Seq<char>)>::empty());
    } else {
        lemma_replaced_all_lone(x, y, kinds, k, n - 1);
        lemma_replaced_all_take(x, kinds, n);
        let l = n - 1;
        if l < k {
            lemma_unopened_kept(x, kinds[l].0, kinds[l].1, kinds[l].2);
        } else if l > k {
            lemma_unopened_kept(y, kinds[l].0, kinds[l].1, kinds[l].2);
        }
    }
}

/// The text of a saved block between its markers: the content, ended by a
/// newline.
pub open spec fn saved_body(content: Seq<char>) -> Seq<char> {
    if content.last() == '\n' {
        content
    } else {
        content.push('\n')
    }
}

/// A block that `wrap_block` wrote, from content without the marker
/// prefix, is well shaped and followed by a newline.
pub proof fn lemma_saved_block_shape(
    before: Seq<char>,
    name: Seq<char>,
    content: Seq<char>,
    after: Seq<char>,
)
    requires
        marker_name(name),
        content.len() > 0,
        !contains(content, marker_prefix()),
    ensures
        block_ok(
            start_marker(name) + seq!['\n'] + saved_body(content) + end_marker(name),
            start_marker(name),
            end_marker(name),
        ),
        before + wrapped(name, content) + after == before + (start_marker(name) + seq!['\n']
            + saved_body(content) + end_marker(name)) + (seq!['\n'] + after),
{
    if content.last() != '\n' {
        lemma_push_newline_keeps_absence(content);
    }
    lemma_framed_block_ok(name, saved_body(content));
    assert(before + wrapped(name, content) + after =~= before + (start_marker(name) + seq!['\n']
        + saved_body(content) + end_marker(name)) + (seq!['\n'] + after));
}

/// Around a lone block of known name number `k`, between texts without the
/// marker prefix, no marker of another known block occurs.
pub proof fn lemma_other_blocks_absent(
    before: Seq<char>,
    k: int,
    bk: Seq<char>,
    after: Seq<char>,
    kinds: Seq<(Seq<char>, Seq<char>, Seq<char>)>,
)
    requires
        0 <= k < 8,
        kinds.len() == 8,
        forall|l: int| 0 <= l < 8 ==> #[trigger] kinds[l].0 == start_marker(known_block_names()[l]),
        block_ok(bk, start_marker(known_block_names()[k]), end_marker(known_block_names()[k])),
        !contains(before, marker_prefix()),
        !contains(after, marker_prefix()),
    ensures
        forall|l: int|
            0 <= l < kinds.len() && l != k ==> !contains(
                before + bk + (seq!['\n'] + after),
                #[trigger] kinds[l].0,
            ),
{
    let names = known_block_names();
    let name = names[k];
    lemma_known_names_marked();
    lemma_name_markers(name);
    assert forall|l: int| 0 <= l < kinds.len() && l != k implies !contains(
        before + bk + (seq!['\n'] + after),
        #[trigger] kinds[l].0,
    ) by {
        assert(names[l] != name);
        lemma_name_markers(names[l]);
        lemma_name_markers_differ(names[l], name);
        lemma_name_markers_differ(name, names[l]);
        lemma_lone_kind_absent(before, bk, after, start_marker(name), end_marker(name), kinds[l].0);
    }
}

/// A report whose only marked block is the known block number `k`, saved
/// between texts without markers, reads back as that block rendered afresh
/// from the statistics, the texts around it kept.
#[verifier::spinoff_prover]
#[verifier::rlimit(60)]
pub proof fn lemma_lone_block_refreshed(
    before: Seq<char>,
    k: int,
    content: Seq<char>,
    after: Seq<char>,
    stats: DailyStats,
    locale: AppLocale,
    category_overrides: Map<Seq<char>, Seq<char>>,
    semantic_overrides: Map<Seq<char>, Seq<char>>,
    shares: Seq<i32>,
)
    requires
        0 <= k < 8,
        content.len() > 0,
        !contains(before, marker_prefix()),
        !contains(content, marker_prefix()),
        !contains(after, marker_prefix()),
        !contains(
            live_renderings(stats, locale, category_overrides, semantic_overrides, shares)[k],
            marker_prefix(),
        ),
    ensures
        live_report(
            before + wrapped(known_block_names()[k], content) + after,
            stats,
            locale,
            category_overrides,
            semantic_overrides,
            shares,
        ) == before + fresh_block(
            known_block_names()[k],
            live_renderings(stats, locale, category_overrides, semantic_overrides, shares)[k],
        ).push('\n') + after,
{
    let names = known_block_names();
    let name = names[k];
    let r = live_renderings(stats, locale, category_overrides, semantic_overrides, shares);
    let kinds = live_kinds(stats, locale, category_overrides, semantic_overrides, shares);
    lemma_known_names_marked();
    lemma_name_markers(name);
    let x = before + wrapped(name, content) + after;
    let fb = fresh_block(name, r[k]);
    let y = before + fb.push('\n') + after;
    lemma_saved_block_shape(before, name, content, after);
    let w = start_marker(name) + seq!['\n'] + saved_body(content) + end_marker(name);
    lemma_fresh_block_ok(name, r[k]);
    assert(y =~= before + fb + (seq!['\n'] + after));
    assert forall|l: int| 0 <= l < 8 implies #[trigger] kinds[l].0 == start_marker(names[l]) by {
        assert(kinds[l] == block_kind(names[l], r[l]));
    }
    lemma_other_blocks_absent(before, k, w, after, kinds);
    lemma_other_blocks_absent(before, k, fb, after, kinds);
    lemma_no_prefix_no_marker(content, end_marker(name));
    lemma_no_prefix_no_marker(before, start_marker(name));
    lemma_no_prefix_no_marker(after, start_marker(name));
    lemma_wrapped_block_shows_fresh(before, name, content, after, r[k]);
    assert(kinds[k] == block_kind(name, r[k]));
    lemma_replaced_all_lone(x, y, kinds, k, 8);
    assert(kinds.take(8) =~= kinds);
    lemma_live_report_kinds(x, stats, locale, category_overrides, semantic_overrides, shares);
}

/// The known block names hold no `<`, no `>` and no newline, and no two
/// are the same.
pub proof fn lemma_known_names_marked()
    ensures
        forall|k: int|
            0 <= k < known_block_names().len() ==> marker_name(#[trigger] known_block_names()[k]),
        forall|k: int, l: int|
            0 <= k < known_block_names().len() && 0 <= l < known_block_names().len() && k != l
                ==> #[trigger] known_block_names()[k] != #[trigger] known_block_names()[l],
{
    reveal_strlit("CATEGORY_TABLE");
    reveal_strlit("APP_USAGE_TABLE");
    reveal_strlit("HOURLY_SUMMARY");
    reveal_strlit("DOMAIN_USAGE_TABLE");
    reveal_strlit("LOCAL_OVERVIEW");
    reveal_strlit("LOCAL_CATEGORY");
    reveal_strlit("LOCAL_APP_USAGE");
    reveal_strlit("LOCAL_DOMAIN_USAGE");
    let names = known_block_names();
    assert forall|k: int, l: int| 0 <= k < names.len() && 0 <= l < names.len() && k != l implies
        #[trigger] names[k] != #[trigger] names[l] by {
        if names[k] == names[l] {
            assert(names[k].len() == names[l].len());
            assert(names[k][0] == names[l][0]);
            assert(names[k][6] == names[l][6]);
        }
    }
}

/// The markers and rendered block of the block `name` with the text `text`.
pub open spec fn block_kind(name: Seq<char>, text: Seq<char>) -> (Seq<char>, Seq<char>, Seq<char>) {
    (start_marker(name), end_marker(name), fresh_block(name, text))
}

/// The renderings of the known blocks from the statistics, in the order of
/// `known_block_names`.
pub open spec fn live_renderings(
    stats: DailyStats,
    locale: AppLocale,
    category_overrides: Map<Seq<char>, Seq<char>>,
    semantic_overrides: Map<Seq<char>, Seq<char>>,
    shares: Seq<i32>,
) -> Seq<Seq<char>> {
    seq![
        category_table(stats, locale, category_overrides, shares),
        app_table(stats, locale),
        hourly_summary(stats, locale),
        domain_table(stats, locale, semantic_overrides),
        local_overview(stats, locale),
        category_list(stats, locale, category_overrides, shares),
        app_list(stats, locale),
        domain_list(stats, locale, semantic_overrides),
    ]
}

/// The kinds that `live_report` replaces, in its order.
pub open spec fn live_kinds(
    stats: DailyStats,
    locale: AppLocale,
    category_overrides: Map<Seq<char>, Seq<char>>,
    semantic_overrides: Map<Seq<char>, Seq<char>>,
    shares: Seq<i32>,
) -> Seq<(Seq<char>, Seq<char>, Seq<char>)> {
    let r = live_renderings(stats, locale, category_overrides, semantic_overrides, shares);
    Seq::new(8, |k: int| block_kind(known_block_names()[k], r[k]))
}

/// One more kind replaced.
pub proof fn lemma_replaced_all_take(
    c: Seq<char>,
    kinds: Seq<(Seq<char>, Seq<char>, Seq<char>)>,
    n: int,
)
    requires
        0 < n <= kinds.len(),
    ensures
        replaced_all(c, kinds.take(n)) == replaced(
            replaced_all(c, kinds.take(n - 1)),
            kinds[n - 1].0,
            kinds[n - 1].1,
            kinds[n - 1].2,
        ),
{
    assert(kinds.take(n).drop_last() =~= kinds.take(n - 1));
    assert(kinds.take(n).last() == kinds[n - 1]);
}

/// `live_report` replaces the live kinds in order.
pub proof fn lemma_live_report_kinds(
    content: Seq<char>,
    stats: DailyStats,
    locale: AppLocale,
    category_overrides: Map<Seq<char>, Seq<char>>,
    semantic_overrides: Map<Seq<char>, Seq<char>>,
    shares: Seq<i32>,
)
    ensures
        live_report(content, stats, locale, category_overrides, semantic_overrides, shares)
            == replaced_all(
            content,
            live_kinds(stats, locale, category_overrides, semantic_overrides, shares),
        ),
{
    let kinds = live_kinds(stats, locale, category_overrides, semantic_overrides, shares);
    assert(kinds.take(0) =~= Seq::<(Seq<char>, Seq<char>, Seq<char>)>::empty());
    lemma_replaced_all_take(content, kinds, 1);
    lemma_replaced_all_take(content, kinds, 2);
    lemma_replaced_all_take(content, kinds, 3);
    lemma_replaced_all_take(content, kinds, 4);
    lemma_replaced_all_take(content, kinds, 5);
    lemma_replaced_all_take(content, kinds, 6);
    lemma_replaced_all_take(content, kinds, 7);
    lemma_replaced_all_take(content, kinds, 8);
    assert(kinds.take(8) =~= kinds);
}

/// The live kinds are well shaped when no rendering holds the marker
/// prefix.
pub proof fn lemma_live_kinds_ok(
    stats: DailyStats,
    locale: AppLocale,
    category_overrides: Map<Seq<char>, Seq<char>>,
    semantic_overrides: Map<Seq<char>, Seq<char>>,
    shares: Seq<i32>,
)
    requires
        forall|k: int|
            0 <= k < 8 ==> !contains(
                #[trigger] live_renderings(
                    stats,
                    locale,
                    category_overrides,
                    semantic_overrides,
                    shares,
                )[k],
                marker_prefix(),
            ),
    ensures
        kinds_ok(live_kinds(stats, locale, category_overrides, semantic_overrides, shares)),
{
    let kinds = live_kinds(stats, locale, category_overrides, semantic_overrides, shares);
    let r = live_renderings(stats, locale, category_overrides, semantic_overrides, shares);
    let names = known_block_names();
    lemma_known_names_marked();
    assert forall|k: int| 0 <= k < kinds.len() implies {
        &&& marker_ok(#[trigger] kinds[k].0)
        &&& marker_ok(kinds[k].1)
        &&& kinds[k].0 != kinds[k].1
        &&& block_ok(kinds[k].2, kinds[k].0, kinds[k].1)
    } by {
        assert(kinds[k] == block_kind(names[k], r[k]));
        assert(marker_name(names[k]));
        lemma_name_markers(names[k]);
        lemma_fresh_block_ok(names[k], r[k]);
    }
    assert forall|k: int, l: int| 0 <= k < kinds.len() && 0 <= l < kinds.len() && k != l implies {
        &&& #[trigger] kinds[k].0 != #[trigger] kinds[l].0
        &&& kinds[k].0 != kinds[l].1
        &&& kinds[k].1 != kinds[l].1
    } by {
        assert(kinds[k] == block_kind(names[k], r[k]));
        assert(kinds[l] == block_kind(names[l], r[l]));
        assert(names[k] != names[l]);
        lemma_name_markers_differ(names[k], names[l]);
    }
}

} // verus!
