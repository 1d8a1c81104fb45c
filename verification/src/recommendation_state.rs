//! When a page asks Modrinth for recommendations, and which answers it keeps: every request is
//! tagged with the page's generation, and an answer to an older generation is dropped.
use vstd::prelude::*;

use crate::model::{HitView, ModrinthHit};
use crate::recommendations::hits_view;

verus! {

/// A page's recommendations: the current generation, the hits shown, whether a search is
/// loading, whether one is still awaited, and the last error.
pub struct RecommendationsState {
    pub generation: u64,
    pub hits: Vec<ModrinthHit>,
    pub loading: bool,
    pub awaiting: bool,
    pub error: Option<String>,
}

/// The content of a page's recommendations.
pub struct RecommendationsView {
    pub generation: u64,
    pub hits: Seq<HitView>,
    pub loading: bool,
    pub awaiting: bool,
    pub error: Option<Seq<char>>,
}

impl View for RecommendationsState {
    type V = RecommendationsView;

    open spec fn view(&self) -> RecommendationsView {
        RecommendationsView {
            generation: self.generation,
            hits: hits_view(self.hits@),
            loading: self.loading,
            awaiting: self.awaiting,
            error: crate::model::opt_text(self.error),
        }
    }
}

/// The next generation (wrapping around).
pub open spec fn next_generation(g: u64) -> u64 {
    if g == u64::MAX {
        0
    } else {
        (g + 1) as u64
    }
}

/// The state after the installed content changed.
pub open spec fn after_content_changed(s: RecommendationsView) -> RecommendationsView {
    RecommendationsView {
        generation: next_generation(s.generation),
        hits: Seq::empty(),
        loading: false,
        awaiting: false,
        error: None,
    }
}

/// The state after a refresh.
pub open spec fn after_refresh(s: RecommendationsView) -> RecommendationsView {
    RecommendationsView {
        generation: next_generation(s.generation),
        hits: Seq::empty(),
        loading: false,
        awaiting: false,
        error: s.error,
    }
}

/// The state after a search starts.
pub open spec fn after_begin(s: RecommendationsView) -> RecommendationsView {
    RecommendationsView { loading: true, awaiting: true, error: None, ..s }
}

/// The state after an answer of `generation` with `hits` arrives.
pub open spec fn after_loaded(s: RecommendationsView, generation: u64, hits: Seq<HitView>) -> RecommendationsView {
    if generation == s.generation {
        RecommendationsView { hits, loading: false, awaiting: false, ..s }
    } else {
        s
    }
}

/// What the recommendations section shows under its cards.
pub enum SectionFooter {
    Loading,
    Error(String),
    Nothing,
}

impl RecommendationsState {
    /// No recommendations yet, nothing requested.
    pub fn new() -> (res: Self)
        ensures
            res@ == (RecommendationsView {
                generation: 0,
                hits: Seq::empty(),
                loading: false,
                awaiting: false,
                error: None,
            }),
    {
        let res = RecommendationsState {
            generation: 0,
            hits: Vec::new(),
            loading: false,
            awaiting: false,
            error: None,
        };
        assert(hits_view(res.hits@) =~= Seq::<HitView>::empty());
        res
    }

    /// The installed content changed: a new generation, no hits, nothing loading or awaited,
    /// no error.
    pub fn content_changed(&mut self)
        ensures
            final(self)@ == after_content_changed(old(self)@),
    {
        self.generation = self.generation.wrapping_add(1);
        self.hits = Vec::new();
        self.awaiting = false;
        self.loading = false;
        self.error = None;
        assert(hits_view(self.hits@) =~= Seq::<HitView>::empty());
    }

    /// The user asked for a refresh: a new generation, no hits, nothing loading or awaited;
    /// the last error stays until the next search.
    pub fn refresh(&mut self)
        ensures
            final(self)@ == after_refresh(old(self)@),
    {
        self.generation = self.generation.wrapping_add(1);
        self.hits = Vec::new();
        self.awaiting = false;
        self.loading = false;
        assert(hits_view(self.hits@) =~= Seq::<HitView>::empty());
    }

    /// There is nothing to recommend for: no hits.
    pub fn clear_hits(&mut self)
        ensures
            final(self)@ == (RecommendationsView { hits: Seq::empty(), ..old(self)@ }),
    {
        self.hits = Vec::new();
        assert(hits_view(self.hits@) =~= Seq::<HitView>::empty());
    }

    /// Whether a new search should start: none is loading or awaited.
    pub fn should_request(&self) -> (res: bool)
        ensures
            res == (!self.loading && !self.awaiting),
    {
        !self.loading && !self.awaiting
    }

    /// A search starts: it is loading and awaited, the error is cleared; returns the generation
    /// the search belongs to.
    pub fn begin_request(&mut self) -> (res: u64)
        ensures
            res == old(self).generation,
            final(self)@ == after_begin(old(self)@),
    {
        self.loading = true;
        self.awaiting = true;
        self.error = None;
        self.generation
    }

    /// A search of `generation` found `hits` (already ranked). Kept only when the generation
    /// is still current: then they are shown and nothing is loading or awaited. Returns
    /// whether they were kept.
    pub fn finish_loaded(&mut self, generation: u64, hits: Vec<ModrinthHit>) -> (res: bool)
        ensures
            res == (generation == old(self).generation),
            final(self)@ == after_loaded(old(self)@, generation, hits_view(hits@)),
    {
        if self.generation != generation {
            return false;
        }
        self.hits = hits;
        self.loading = false;
        self.awaiting = false;
        true
    }

    /// A search of `generation` failed. Kept only when the generation is still current: then
    /// the error is shown and nothing is loading or awaited. Returns whether it was kept.
    pub fn finish_error(&mut self, generation: u64, error: String) -> (res: bool)
        ensures
            res == (generation == old(self).generation),
            res ==> final(self)@ == (RecommendationsView {
                error: Some(error@),
                loading: false,
                awaiting: false,
                ..old(self)@
            }),
            !res ==> final(self)@ == old(self)@,
    {
        if self.generation != generation {
            return false;
        }
        self.error = Some(error);
        self.loading = false;
        self.awaiting = false;
        true
    }

    /// Whether the section says there is nothing to recommend: there are no cards and no
    /// search is loading (while one loads, the loading note shows instead).
    pub fn shows_empty_message(&self) -> (res: bool)
        ensures
            res == (self@.hits.len() == 0 && !self.loading),
    {
        self.hits.len() == 0 && !self.loading
    }

    /// What the section shows under its cards: a loading note while loading, else the last
    /// error, if any.
    pub fn footer(&self) -> (res: SectionFooter)
        ensures
            self.loading ==> res is Loading,
            !self.loading ==> match self.error {
                Some(e) => res matches SectionFooter::Error(t) && t@ == e@,
                None => res is Nothing,
            },
    {
        if self.loading {
            SectionFooter::Loading
        } else {
            match &self.error {
                Some(e) => SectionFooter::Error(crate::text::to_owned(e.as_str())),
                None => SectionFooter::Nothing,
            }
        }
    }
}

/// An answer to a search begun before the content changed or a refresh is dropped, whatever
/// hits it holds, and leaves the state as it was.
pub proof fn law_stale_answers_dropped(s: RecommendationsView, hits: Seq<HitView>)
    ensures
        ({
            let g = after_begin(s).generation;
            let t = after_content_changed(after_begin(s));
            let r = after_refresh(after_begin(s));
            after_loaded(t, g, hits) == t && after_loaded(r, g, hits) == r
        }),
{
}

/// An answer to the current search is shown, in the generation it was asked in, with nothing
/// loading or awaited afterwards.
pub proof fn law_current_answer_kept(s: RecommendationsView, hits: Seq<HitView>)
    ensures
        ({
            let b = after_begin(s);
            let l = after_loaded(b, b.generation, hits);
            l.hits == hits && !l.loading && !l.awaiting && l.generation == s.generation
        }),
{
}

/// One search at a time: once a search begins, no other is asked for until its answer (or a
/// content change or refresh) arrives; a content change or refresh lets a new search begin,
/// in a new generation, so that the earlier search's answer no longer matches.
pub proof fn law_requests(s: RecommendationsView, hits: Seq<HitView>)
    ensures
        after_begin(s).loading && after_begin(s).awaiting,
        after_begin(s).generation == s.generation,
        !after_loaded(after_begin(s), s.generation, hits).loading && !after_loaded(
            after_begin(s),
            s.generation,
            hits,
        ).awaiting,
        !after_content_changed(s).loading && !after_content_changed(s).awaiting,
        !after_refresh(s).loading && !after_refresh(s).awaiting,
        after_content_changed(s).generation != s.generation,
        after_refresh(s).generation != s.generation,
{
}

} // verus!
