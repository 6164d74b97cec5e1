//! The search coordinator: for each query that the interaction loop sends, it
//! decides whether the query is still wanted, whether the cache answers it or
//! a lookup has to be made, and whether what a lookup brought is still shown.

use crate::search::{search_url, url_of, By, Package};
use crate::state::{State, StateView, StatefulTable};
use vstd::hash_map::StringHashMap;
use vstd::prelude::*;

verus! {

/// What the coordinator decided about a query.
#[derive(Clone, Copy, Debug, PartialEq, Eq, Structural)]
pub enum Step {
    /// The live query has moved on: the query is dropped.
    Stale,
    /// The cache held the answer, and it is on display now.
    Served,
    /// A lookup has to be made; the coordinator waits for what it brings.
    Fetch,
}

/// The coordinator: the answers to the queries looked up so far, and the
/// query whose lookup is in flight, if one is.
pub struct Coordinator {
    cache: StringHashMap<Vec<Package>>,
    awaiting: Option<String>,
}

/// What a `Coordinator` holds, as plain values.
pub struct CoordinatorView {
    pub cache: Map<Seq<char>, Seq<Package>>,
    pub awaiting: Option<Seq<char>>,
}

impl CoordinatorView {
    /// A lookup is in flight only for a query that the cache does not answer.
    pub open spec fn wf(self) -> bool {
        self.awaiting matches Some(query) ==> !self.cache.contains_key(query)
    }

    /// The coordinator at start: an empty cache and no lookup in flight.
    pub open spec fn initial() -> CoordinatorView {
        CoordinatorView { cache: Map::empty(), awaiting: None }
    }
}

/// The decision on `query` when the live query and the cache are as given.
pub open spec fn step_on(c: CoordinatorView, v: StateView, query: Seq<char>) -> Step {
    if v.input != query {
        Step::Stale
    } else if c.cache.contains_key(query) {
        Step::Served
    } else {
        Step::Fetch
    }
}

/// The coordinator after its decision on `query`: unchanged, but that it
/// waits for the lookup where one has to be made.
pub open spec fn coordinator_after_begin(
    c: CoordinatorView,
    v: StateView,
    query: Seq<char>,
) -> CoordinatorView {
    match step_on(c, v, query) {
        Step::Fetch => CoordinatorView { awaiting: Some(query), ..c },
        _ => c,
    }
}

/// The view state after the decision on `query`: unchanged for a stale query,
/// showing the cached answer where there is one, and with one more lookup in
/// flight where one has to be made.
pub open spec fn state_after_begin(
    c: CoordinatorView,
    v: StateView,
    query: Seq<char>,
) -> StateView {
    match step_on(c, v, query) {
        Step::Stale => v,
        Step::Served => v.showing(c.cache[query]),
        Step::Fetch => StateView { pending: v.pending + 1, ..v },
    }
}

/// The coordinator after the lookup it waited for has brought `results`: they
/// are the cache's answer to the query, and no lookup is in flight.
pub open spec fn coordinator_after_complete(
    c: CoordinatorView,
    results: Seq<Package>,
) -> CoordinatorView
    recommends
        c.awaiting is Some,
{
    CoordinatorView { cache: c.cache.insert(c.awaiting->0, results), awaiting: None }
}

/// The view state after the lookup has brought `results`: one lookup fewer in
/// flight, and the results on display if the live query is still the one
/// that was looked up.
pub open spec fn state_after_complete(
    c: CoordinatorView,
    v: StateView,
    results: Seq<Package>,
) -> StateView
    recommends
        c.awaiting is Some,
        v.pending > 0,
{
    let landed = StateView { pending: (v.pending - 1) as nat, ..v };
    if v.input == c.awaiting->0 {
        landed.showing(results)
    } else {
        landed
    }
}

impl View for Coordinator {
    type V = CoordinatorView;

    closed spec fn view(&self) -> CoordinatorView {
        CoordinatorView {
            cache: self.cache@.map_values(|answer: Vec<Package>| answer@),
            awaiting: match self.awaiting {
                Some(query) => Some(query@),
                None => None,
            },
        }
    }
}

impl Coordinator {
    #[verifier::type_invariant]
    spec fn inv(&self) -> bool {
        self.awaiting matches Some(query) ==> !self.cache@.contains_key(query@)
    }

    /// A coordinator with an empty cache and no lookup in flight.
    pub fn new() -> (coordinator: Coordinator)
        ensures
            coordinator@ == CoordinatorView::initial(),
    {
        let coordinator = Coordinator { cache: StringHashMap::new(), awaiting: None };
        assert(coordinator@.cache =~= Map::empty());
        coordinator
    }

    /// The query whose lookup is in flight, if one is.
    pub fn awaiting(&self) -> (query: Option<&String>)
        ensures
            self@.wf(),
            match query {
                Some(q) => self@.awaiting == Some(q@),
                None => self@.awaiting.is_none(),
            },
    {
        proof {
            use_type_invariant(self);
        }
        self.awaiting.as_ref()
    }

    /// The URL of the request that the lookup in flight makes: a search for
    /// the awaited query in names and descriptions.
    pub fn request_url(&self) -> (url: Option<String>)
        ensures
            match (url, self@.awaiting) {
                (Some(address), Some(query)) => address@ == url_of(By::NameDesc, query),
                (None, None) => true,
                _ => false,
            },
    {
        match &self.awaiting {
            Some(query) => Some(search_url(By::NameDesc, query.as_str())),
            None => None,
        }
    }

    /// The cache's answer to `query`, if it has one.
    pub fn cached(&self, query: &str) -> (answer: Option<&Vec<Package>>)
        ensures
            match answer {
                Some(records) => self@.cache.contains_key(query@) && records@
                    == self@.cache[query@],
                None => !self@.cache.contains_key(query@),
            },
    {
        self.cache.get(query)
    }

    /// Takes the next query off the stream. A query that is no longer the
    /// live one is dropped and nothing changes. One that the cache answers
    /// has its answer put on display, with no row selected. For any other
    /// the count of lookups in flight goes up by one, and the coordinator
    /// waits for the caller to make the lookup and to hand what it brought
    /// to `complete`.
    pub fn begin(&mut self, state: &mut State, query: String) -> (step: Step)
        requires
            old(self)@.awaiting.is_none(),
            step_on(old(self)@, old(state)@, query@) == Step::Fetch ==> old(state).pending_searches
                < usize::MAX,
        ensures
            step == step_on(old(self)@, old(state)@, query@),
            final(self)@ == coordinator_after_begin(old(self)@, old(state)@, query@),
            final(state)@ == state_after_begin(old(self)@, old(state)@, query@),
            final(self)@.cache == old(self)@.cache,
            final(self)@.wf(),
            old(state).wf() ==> final(state).wf(),
    {
        if state.input != query {
            return Step::Stale;
        }
        match self.cache.get(query.as_str()) {
            Some(answer) => {
                state.results = StatefulTable::new(answer.clone());
                Step::Served
            },
            None => {
                state.pending_searches += 1;
                self.awaiting = Some(query);
                Step::Fetch
            },
        }
    }

    /// Takes what the lookup brought for the query that the coordinator
    /// waited for. The results become the cache's answer to that query, the
    /// count of lookups in flight goes down by one, and the results are put
    /// on display, with no row selected, if the live query is still the one
    /// that was looked up. If it is not, the display stays as it is. The
    /// result says whether the results were put on display.
    pub fn complete(&mut self, state: &mut State, results: Vec<Package>) -> (shown: bool)
        requires
            old(self)@.awaiting.is_some(),
            old(state).pending_searches > 0,
        ensures
            shown == (old(state)@.input == old(self)@.awaiting->0),
            final(self)@ == coordinator_after_complete(old(self)@, results@),
            final(state)@ == state_after_complete(old(self)@, old(state)@, results@),
            forall|query: Seq<char>| #[trigger]
                old(self)@.cache.contains_key(query) ==> final(self)@.cache.contains_key(query)
                    && final(self)@.cache[query] == old(self)@.cache[query],
            final(self)@.wf(),
            old(state).wf() ==> final(state).wf(),
    {
        proof {
            use_type_invariant(&*self);
        }
        // Both fields are swapped out before the map changes, so that the
        // coordinator that is left behind is valid at every point.
        let mut landed: Option<String> = None;
        let mut cache: StringHashMap<Vec<Package>> = StringHashMap::new();
        core::mem::swap(&mut self.awaiting, &mut landed);
        core::mem::swap(&mut self.cache, &mut cache);
        let query = landed.unwrap();
        state.pending_searches -= 1;
        let shown = state.input == query;
        if shown {
            state.results = StatefulTable::new(results.clone());
        }
        cache.insert(query, results);
        self.cache = cache;
        assert(self@.cache =~= old(self)@.cache.insert(query@, results@));
        shown
    }
}

} // verus!
