//! The daily statistics that the report blocks are rendered from, the
//! interface locales, and the user's name overrides for categories.
//!
//! These types stand in for the application's statistics records and
//! locale setting, whose definitions are not part of this crate: they hold
//! exactly the fields that the report blocks read.

use vstd::prelude::*;
use crate::text::str_eq;

verus! {

/// The interface language of a report.
#[derive(Clone, Copy, Debug, PartialEq, Eq)]
pub enum AppLocale {
    ZhCn,
    ZhTw,
    En,
}

/// Time spent in one application, in seconds.
#[derive(Clone, Debug)]
pub struct AppUsage {
    pub app_name: String,
    pub duration: i64,
}

/// Time spent in one category of activity, in seconds.
#[derive(Clone, Debug)]
pub struct CategoryUsage {
    pub category: String,
    pub duration: i64,
}

/// Time spent on one web site, in seconds, with the semantic category the
/// site was classified under, if any.
#[derive(Clone, Debug)]
pub struct DomainUsage {
    pub domain: String,
    pub duration: i64,
    pub semantic_category: Option<String>,
}

/// Time spent on one address, in seconds.
#[derive(Clone, Debug)]
pub struct UrlUsage {
    pub url: String,
    pub duration: i64,
}

/// Time spent in one browser, in seconds.
#[derive(Clone, Debug)]
pub struct BrowserUsage {
    pub browser_name: String,
    pub duration: i64,
}

/// Activity within one hour of the day (`0..24`), in seconds.
#[derive(Clone, Debug)]
pub struct HourlyActivity {
    pub hour: u32,
    pub duration: i64,
}

/// The statistics of one day of work.
#[derive(Clone, Debug)]
pub struct DailyStats {
    pub total_duration: i64,
    pub screenshot_count: i64,
    pub app_usage: Vec<AppUsage>,
    pub category_usage: Vec<CategoryUsage>,
    pub browser_duration: i64,
    pub url_usage: Vec<UrlUsage>,
    pub domain_usage: Vec<DomainUsage>,
    pub browser_usage: Vec<BrowserUsage>,
    pub work_time_duration: i64,
    pub overtime_duration: i64,
    pub hourly_activity_distribution: Vec<HourlyActivity>,
}

/// The display names the user gave to category names: a map from name to
/// display name in which a later entry for a name replaces an earlier one.
#[derive(Clone, Debug)]
pub struct NameOverrides {
    entries: Vec<(String, String)>,
}

/// The map that a list of entries stands for, later entries winning.
pub open spec fn overrides_map(entries: Seq<(String, String)>) -> Map<Seq<char>, Seq<char>>
    decreases entries.len(),
{
    if entries.len() == 0 {
        Map::empty()
    } else {
        overrides_map(entries.drop_last()).insert(entries.last().0@, entries.last().1@)
    }
}

impl View for NameOverrides {
    type V = Map<Seq<char>, Seq<char>>;

    closed spec fn view(&self) -> Map<Seq<char>, Seq<char>> {
        overrides_map(self.entries@)
    }
}

impl NameOverrides {
    /// No overrides.
    pub fn new() -> (r: Self)
        ensures
            r@ == Map::<Seq<char>, Seq<char>>::empty(),
    {
        NameOverrides { entries: Vec::new() }
    }

    /// Sets the display name of `name` to `display`.
    pub fn insert(&mut self, name: String, display: String)
        ensures
            final(self)@ == old(self)@.insert(name@, display@),
    {
        self.entries.push((name, display));
        assert(self.entries@.drop_last() =~= old(self).entries@);
    }

    /// The display name given to `name`, if any.
    pub fn get(&self, name: &str) -> (r: Option<String>)
        ensures
            r matches Some(d) ==> self@.contains_key(name@) && d@ == self@[name@],
            r is None ==> !self@.contains_key(name@),
    {
        let mut k: usize = self.entries.len();
        proof {
            lemma_overrides_split(self.entries@, k as int);
        }
        while k > 0
            invariant
                k <= self.entries.len(),
                overrides_map(self.entries@) == overrides_map(self.entries@.take(k as int)).union_prefer_right(
                    overrides_map(self.entries@.skip(k as int)),
                ),
                !overrides_map(self.entries@.skip(k as int)).contains_key(name@),
            decreases k,
        {
            let ghost pre = self.entries@.take(k as int);
            assert(pre.drop_last() =~= self.entries@.take(k - 1));
            if str_eq(self.entries[k - 1].0.as_str(), name) {
                assert(overrides_map(pre).contains_key(name@));
                return Some(self.entries[k - 1].1.clone());
            }
            proof {
                lemma_overrides_split(self.entries@, k - 1);
                lemma_overrides_prepend(self.entries@.skip(k - 1));
                assert(self.entries@.skip(k - 1).drop_first() =~= self.entries@.skip(k as int));
                assert(self.entries@.skip(k - 1)[0] == self.entries@[k - 1]);
            }
            k = k - 1;
        }
        assert(self.entries@.take(0) =~= Seq::<(String, String)>::empty());
        None
    }
}

/// Splitting the entries at `k`: the map is that of the part before `k`,
/// overridden by that of the part from `k` on.
pub proof fn lemma_overrides_split(entries: Seq<(String, String)>, k: int)
    requires
        0 <= k <= entries.len(),
    ensures
        overrides_map(entries) == overrides_map(entries.take(k)).union_prefer_right(
            overrides_map(entries.skip(k)),
        ),
    decreases entries.len() - k,
{
    if k == entries.len() {
        assert(entries.take(k) =~= entries);
        assert(entries.skip(k) =~= Seq::<(String, String)>::empty());
        assert(overrides_map(entries).union_prefer_right(Map::empty()) =~= overrides_map(entries));
    } else {
        lemma_overrides_split(entries, k + 1);
        let a = overrides_map(entries.take(k));
        let e = entries[k];
        assert(entries.take(k + 1).drop_last() =~= entries.take(k));
        assert(overrides_map(entries.take(k + 1)) == a.insert(e.0@, e.1@));
        lemma_overrides_prepend(entries.skip(k));
        assert(entries.skip(k).drop_first() =~= entries.skip(k + 1));
        let b = overrides_map(entries.skip(k + 1));
        assert(a.insert(e.0@, e.1@).union_prefer_right(b) =~= a.union_prefer_right(
            Map::<Seq<char>, Seq<char>>::empty().insert(e.0@, e.1@).union_prefer_right(b),
        ));
    }
}

/// The map of a list is its first entry overridden by the map of the rest.
pub proof fn lemma_overrides_prepend(entries: Seq<(String, String)>)
    requires
        entries.len() > 0,
    ensures
        overrides_map(entries) == Map::<Seq<char>, Seq<char>>::empty().insert(
            entries[0].0@,
            entries[0].1@,
        ).union_prefer_right(overrides_map(entries.drop_first())),
    decreases entries.len(),
{
    let one = Map::<Seq<char>, Seq<char>>::empty().insert(entries[0].0@, entries[0].1@);
    if entries.len() == 1 {
        assert(entries.drop_first() =~= Seq::<(String, String)>::empty());
        assert(entries.drop_last() =~= Seq::<(String, String)>::empty());
        assert(overrides_map(entries.drop_last()) == Map::<Seq<char>, Seq<char>>::empty());
        assert(overrides_map(entries.drop_first()) == Map::<Seq<char>, Seq<char>>::empty());
        assert(one.union_prefer_right(Map::empty()) =~= overrides_map(entries));
    } else {
        lemma_overrides_prepend(entries.drop_last());
        assert(entries.drop_last().drop_first() =~= entries.drop_first().drop_last());
        assert(entries.drop_first().last() == entries.last());
        assert(overrides_map(entries) =~= one.union_prefer_right(overrides_map(entries.drop_first())));
    }
}

} // verus!
