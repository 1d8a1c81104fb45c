//! The decisions of the instances page and the version picker: which search is applied, what
//! the page shows, and which versions match what is typed.
use vstd::prelude::*;

use crate::config::InstancesViewMode;
use crate::names::texts;
use crate::text::{starts_with, str_eq};

verus! {

/// The searches typed on the instances page: each change is numbered, and a search is applied
/// only if no change came after it.
pub struct SearchDebounce {
    pub generation: usize,
}

impl SearchDebounce {
    /// No search typed yet.
    pub fn new() -> (res: Self)
        ensures
            res.generation == 0,
    {
        SearchDebounce { generation: 0 }
    }

    /// The search text changed: returns the number of this change.
    pub fn changed(&mut self) -> (res: usize)
        requires
            old(self).generation < usize::MAX,
        ensures
            final(self).generation == old(self).generation + 1,
            res == final(self).generation,
    {
        self.generation = self.generation + 1;
        self.generation
    }

    /// Whether the search of a change is applied: no other change came after it.
    pub fn is_current(&self, generation: usize) -> (res: bool)
        ensures
            res == (generation == self.generation),
    {
        self.generation == generation
    }
}

/// Whether the instances page scrolls: the card view does, the list view scrolls itself.
pub fn page_scrolls(mode: InstancesViewMode) -> (res: bool)
    ensures
        res == (mode == InstancesViewMode::Cards),
{
    match mode {
        InstancesViewMode::Cards => true,
        InstancesViewMode::List => false,
    }
}

/// What the instances page shows.
#[derive(Clone, Copy, PartialEq, Eq, Structural, Debug)]
pub enum InstancesView {
    /// No instances at all: a welcome.
    Welcome,
    /// A search matched nothing.
    NoResults,
    Cards,
    List,
}

/// What the instances page shows: a welcome without instances, a note when an active search
/// matches nothing, else the chosen view.
pub fn instances_view(has_no_instances: bool, has_no_visible: bool, filter_active: bool, mode: InstancesViewMode) -> (res:
    InstancesView)
    ensures
        res == if has_no_instances {
            InstancesView::Welcome
        } else if has_no_visible && filter_active {
            InstancesView::NoResults
        } else if mode == InstancesViewMode::Cards {
            InstancesView::Cards
        } else {
            InstancesView::List
        },
{
    if has_no_instances {
        InstancesView::Welcome
    } else if has_no_visible && filter_active {
        InstancesView::NoResults
    } else {
        match mode {
            InstancesViewMode::Cards => InstancesView::Cards,
            InstancesViewMode::List => InstancesView::List,
        }
    }
}

/// What `str::to_lowercase` gives for a text (Unicode's lowercase mapping).
pub uninterp spec fn unicode_lowercase(s: Seq<char>) -> Seq<char>;

/// Calls `str::to_lowercase`; its contract claims that the result is the named lowercase of
/// the text.
#[verifier::external_body]
fn to_lowercase(s: &str) -> (res: String)
    ensures
        res@ == unicode_lowercase(s@),
{
    s.to_lowercase()
}

/// The versions whose lowercase starts with the query's lowercase, in order.
pub open spec fn matching_versions(versions: Seq<Seq<char>>, query: Seq<char>) -> Seq<Seq<char>>
    decreases versions.len(),
{
    if versions.len() == 0 {
        Seq::empty()
    } else {
        let rest = matching_versions(versions.drop_last(), query);
        if starts_with(unicode_lowercase(versions.last()), unicode_lowercase(query)) {
            rest.push(versions.last())
        } else {
            rest
        }
    }
}

/// The versions offered by a version picker, and those matching what is typed.
pub struct VersionList {
    pub versions: Vec<String>,
    pub matched_versions: Vec<String>,
}

impl VersionList {
    /// A picker with nothing to offer.
    pub fn new() -> (res: Self)
        ensures
            res.versions@.len() == 0,
            res.matched_versions@.len() == 0,
    {
        VersionList { versions: Vec::new(), matched_versions: Vec::new() }
    }

    /// How many versions match.
    pub fn items_count(&self) -> (res: usize)
        ensures
            res == self.matched_versions@.len(),
    {
        self.matched_versions.len()
    }

    /// The matching version in a row, if there is one.
    pub fn item(&self, row: usize) -> (res: Option<&String>)
        ensures
            row < self.matched_versions@.len() ==> res == Some(&self.matched_versions@[row as int]),
            row >= self.matched_versions@.len() ==> res is None,
    {
        if row < self.matched_versions.len() {
            Some(&self.matched_versions[row])
        } else {
            None
        }
    }

    /// The row of the first matching version equal to `value`.
    pub fn position(&self, value: &str) -> (res: Option<usize>)
        ensures
            match res {
                Some(r) => r < self.matched_versions@.len() && self.matched_versions@[r as int]@ == value@
                    && forall|m: int| 0 <= m < r ==> #[trigger] self.matched_versions@[m]@ != value@,
                None => forall|m: int| 0 <= m < self.matched_versions@.len() ==> #[trigger] self.matched_versions@[m]@
                    != value@,
            },
    {
        for i in 0..self.matched_versions.len()
            invariant
                forall|m: int| 0 <= m < i ==> #[trigger] self.matched_versions@[m]@ != value@,
        {
            if str_eq(self.matched_versions[i].as_str(), value) {
                return Some(i);
            }
        }
        None
    }

    /// Keeps the versions whose lowercase starts with the query's lowercase.
    pub fn perform_search(&mut self, query: &str)
        ensures
            texts(final(self).matched_versions@) == matching_versions(texts(old(self).versions@), query@),
            final(self).versions@ == old(self).versions@,
    {
        let lower_query = to_lowercase(query);
        let lq = crate::text::chars_of(lower_query.as_str());
        let ghost vs = texts(self.versions@);
        let mut matched: Vec<String> = Vec::new();
        for i in 0..self.versions.len()
            invariant
                vs == texts(self.versions@),
                lq@ == unicode_lowercase(query@),
                texts(matched@) == matching_versions(vs.take(i as int), query@),
        {
            let lower = to_lowercase(self.versions[i].as_str());
            let lv = crate::text::chars_of(lower.as_str());
            assert(vs.take(i + 1).drop_last() =~= vs.take(i as int));
            assert(vs[i as int] == self.versions@[i as int]@);
            if crate::text::slice_occurs_at(lv.as_slice(), lq.as_slice(), 0) {
                let ghost before = matched@;
                let copy = crate::text::to_owned(self.versions[i].as_str());
                matched.push(copy);
                assert(texts(matched@) =~= texts(before).push(copy@));
            }
        }
        assert(vs.take(vs.len() as int) =~= vs);
        self.matched_versions = matched;
    }
}

/// The theme to apply from the settings: the saved name, trimmed, unless it is empty.
pub fn saved_theme_name(active_theme: &str) -> (res: Option<String>)
    ensures
        match res {
            Some(n) => n@ == crate::text::trim(active_theme@) && n@.len() > 0,
            None => crate::text::trim(active_theme@).len() == 0,
        },
{
    let t = crate::text::str_trim(active_theme);
    if t.len() == 0 {
        None
    } else {
        Some(crate::text::string_of(t.as_slice()))
    }
}

/// Whether the "what's new" dialog shows: this build has a release version the user has not
/// seen yet.
pub fn should_show_whats_new(current: Option<&str>, last_seen: Option<&str>) -> (res: bool)
    ensures
        res == match current {
            Some(c) => match last_seen {
                Some(l) => l@ != c@,
                None => true,
            },
            None => false,
        },
{
    match current {
        Some(c) => match last_seen {
            Some(l) => !str_eq(l, c),
            None => true,
        },
        None => false,
    }
}

} // verus!
