//! Whole runs of the search coordinator: what holds of any sequence of
//! queries that it works through, whatever the user types meanwhile and
//! whatever the lookups bring.

use crate::coordinator::{
    coordinator_after_begin, coordinator_after_complete, state_after_begin, state_after_complete,
    step_on, CoordinatorView, Step,
};
use crate::search::Package;
use crate::state::StateView;
use vstd::prelude::*;

verus! {

/// One pass of the coordinator over a query, from taking it off the stream
/// to the return of the lookup, if one is made.
pub struct Pass {
    /// The query that is taken off the stream.
    pub query: Seq<char>,
    /// The live query at that moment.
    pub live_at_start: Seq<char>,
    /// The live query when the lookup returns.
    pub live_at_return: Seq<char>,
    /// What the lookup brings.
    pub fetched: Seq<Package>,
}

impl Pass {
    /// The query of the pass is the live one from start to end.
    pub open spec fn live(self) -> bool {
        self.live_at_start == self.query && self.live_at_return == self.query
    }
}

/// The coordinator and the view state between two passes, with the queries
/// that were looked up so far, in the order of the lookups.
pub struct Session {
    pub coordinator: CoordinatorView,
    pub state: StateView,
    pub lookups: Seq<Seq<char>>,
}

impl Session {
    /// The session at start.
    pub open spec fn initial() -> Session {
        Session {
            coordinator: CoordinatorView::initial(),
            state: StateView::initial(),
            lookups: Seq::empty(),
        }
    }

    /// Between passes no lookup is in flight, and the cache answers every
    /// query that was looked up.
    pub open spec fn wf(self) -> bool {
        &&& self.coordinator.awaiting.is_none()
        &&& forall|i: int|
            0 <= i < self.lookups.len() ==> self.coordinator.cache.contains_key(
                #[trigger] self.lookups[i],
            )
    }
}

/// Whether the pass makes a lookup.
pub open spec fn makes_lookup(s: Session, p: Pass) -> bool {
    step_on(s.coordinator, StateView { input: p.live_at_start, ..s.state }, p.query) == Step::Fetch
}

/// The session after one more pass.
pub open spec fn after_pass(s: Session, p: Pass) -> Session {
    let typed = StateView { input: p.live_at_start, ..s.state };
    let begun = coordinator_after_begin(s.coordinator, typed, p.query);
    let shown = state_after_begin(s.coordinator, typed, p.query);
    if makes_lookup(s, p) {
        let returned = StateView { input: p.live_at_return, ..shown };
        Session {
            coordinator: coordinator_after_complete(begun, p.fetched),
            state: state_after_complete(begun, returned, p.fetched),
            lookups: s.lookups.push(p.query),
        }
    } else {
        Session { coordinator: begun, state: shown, lookups: s.lookups }
    }
}

/// The session after the given passes, in their order.
pub open spec fn run(s: Session, passes: Seq<Pass>) -> Session
    decreases passes.len(),
{
    if passes.len() == 0 {
        s
    } else {
        after_pass(run(s, passes.drop_last()), passes.last())
    }
}

/// The session after the first `n` of the passes.
pub open spec fn run_to(s: Session, passes: Seq<Pass>, n: int) -> Session {
    run(s, passes.take(n))
}

/// The session at start is valid: nothing is in flight, nothing was looked
/// up, and nothing is selected.
pub proof fn lemma_initial_session()
    ensures
        Session::initial().wf(),
        Session::initial().state.wf(),
        Session::initial().state.pending == 0,
        Session::initial().lookups.no_duplicates(),
{
}

/// A pass leaves the session valid, keeps every answer of the cache as it
/// is, and leaves as many lookups in flight as it found.
pub proof fn lemma_pass_keeps_session(s: Session, p: Pass)
    requires
        s.wf(),
    ensures
        after_pass(s, p).wf(),
        after_pass(s, p).state.pending == s.state.pending,
        s.state.wf() ==> after_pass(s, p).state.wf(),
        s.lookups.no_duplicates() ==> after_pass(s, p).lookups.no_duplicates(),
        forall|query: Seq<char>| #[trigger]
            s.coordinator.cache.contains_key(query) ==> {
                let after = after_pass(s, p).coordinator.cache;
                after.contains_key(query) && after[query] == s.coordinator.cache[query]
            },
{
    // A query that is looked up is one that the cache does not answer, and
    // so none of those that were looked up before.
    if makes_lookup(s, p) && s.lookups.no_duplicates() {
        let after = after_pass(s, p).lookups;
        assert forall|i: int, j: int|
            0 <= i < after.len() && 0 <= j < after.len() && i != j implies after[i] != after[j] by {
            if i < s.lookups.len() && j == s.lookups.len() {
                assert(s.coordinator.cache.contains_key(s.lookups[i]));
            }
            if j < s.lookups.len() && i == s.lookups.len() {
                assert(s.coordinator.cache.contains_key(s.lookups[j]));
            }
        }
    }
}

/// A pass over a query that is not the live one when it is taken off the
/// stream changes nothing: no lookup is made, and the cache, the results on
/// display and the selection stay as they are.
pub proof fn lemma_stale_query_is_dropped(s: Session, p: Pass)
    requires
        p.live_at_start != p.query,
    ensures
        !makes_lookup(s, p),
        after_pass(s, p).coordinator == s.coordinator,
        after_pass(s, p).state == (StateView { input: p.live_at_start, ..s.state }),
{
}

/// What a lookup brings for a query that is no longer the live one when the
/// lookup returns is kept for later and not shown: the results on display
/// and the selection stay as they are.
pub proof fn lemma_late_results_are_not_shown(s: Session, p: Pass)
    requires
        makes_lookup(s, p),
        p.live_at_return != p.query,
    ensures
        after_pass(s, p).state.items == s.state.items,
        after_pass(s, p).state.selected == s.state.selected,
        after_pass(s, p).coordinator.cache == s.coordinator.cache.insert(p.query, p.fetched),
{
}

/// Whenever a pass changes the results on display, its query was the live
/// one at that moment, and what is shown is the cache's answer to it.
pub proof fn lemma_shown_results_answer_live_query(s: Session, p: Pass)
    requires
        s.wf(),
        after_pass(s, p).state.items != s.state.items,
    ensures
        after_pass(s, p).state.input == p.query,
        after_pass(s, p).coordinator.cache.contains_key(p.query),
        after_pass(s, p).state.items == after_pass(s, p).coordinator.cache[p.query],
{
}

/// After a pass over a query that is the live one from start to end, the
/// cache's answer to the query is on display, with no row selected.
pub proof fn lemma_live_query_is_answered(s: Session, p: Pass)
    requires
        s.wf(),
        p.live(),
    ensures
        after_pass(s, p).coordinator.cache.contains_key(p.query),
        after_pass(s, p).state.items == after_pass(s, p).coordinator.cache[p.query],
        after_pass(s, p).state.selected.is_none(),
        makes_lookup(s, p) ==> after_pass(s, p).state.items == p.fetched,
{
}

proof fn lemma_run_step(s: Session, passes: Seq<Pass>, n: int)
    requires
        0 <= n < passes.len(),
    ensures
        run_to(s, passes, n + 1) == after_pass(run_to(s, passes, n), passes[n]),
{
    let upto = passes.take(n + 1);
    assert(upto.drop_last() =~= passes.take(n));
}

/// A run leaves the session valid.
pub proof fn lemma_run_keeps_session(s: Session, passes: Seq<Pass>)
    requires
        s.wf(),
    ensures
        run(s, passes).wf(),
        s.state.wf() ==> run(s, passes).state.wf(),
    decreases passes.len(),
{
    if passes.len() > 0 {
        lemma_run_keeps_session(s, passes.drop_last());
        lemma_pass_keeps_session(run(s, passes.drop_last()), passes.last());
    }
}

/// The count of lookups in flight is the same after a run as before it:
/// every lookup that a pass starts is counted once when it starts and once
/// when it returns, whatever it brings.
pub proof fn lemma_busy_count_balanced(s: Session, passes: Seq<Pass>)
    requires
        s.wf(),
    ensures
        run(s, passes).state.pending == s.state.pending,
    decreases passes.len(),
{
    if passes.len() > 0 {
        lemma_busy_count_balanced(s, passes.drop_last());
        lemma_run_keeps_session(s, passes.drop_last());
        lemma_pass_keeps_session(run(s, passes.drop_last()), passes.last());
    }
}

/// No query is looked up twice: a run adds to the queries looked up only
/// queries that were not looked up before, each of them once.
pub proof fn lemma_one_lookup_per_query(s: Session, passes: Seq<Pass>)
    requires
        s.wf(),
        s.lookups.no_duplicates(),
    ensures
        run(s, passes).lookups.no_duplicates(),
    decreases passes.len(),
{
    if passes.len() > 0 {
        lemma_one_lookup_per_query(s, passes.drop_last());
        lemma_run_keeps_session(s, passes.drop_last());
        lemma_pass_keeps_session(run(s, passes.drop_last()), passes.last());
    }
}

/// An answer that the cache holds at one point of a run is its answer at
/// every later point.
pub proof fn lemma_answers_are_kept(
    s: Session,
    passes: Seq<Pass>,
    from: int,
    to: int,
    query: Seq<char>,
)
    requires
        s.wf(),
        0 <= from <= to <= passes.len(),
        run_to(s, passes, from).coordinator.cache.contains_key(query),
    ensures
        ({
            let early = run_to(s, passes, from).coordinator.cache;
            let late = run_to(s, passes, to).coordinator.cache;
            late.contains_key(query) && late[query] == early[query]
        }),
    decreases to - from,
{
    if from < to {
        lemma_answers_are_kept(s, passes, from, to - 1, query);
        lemma_run_keeps_session(s, passes.take(to - 1));
        lemma_run_step(s, passes, to - 1);
        lemma_pass_keeps_session(run_to(s, passes, to - 1), passes[to - 1]);
    }
}

/// A query that is issued twice gets the same answer both times: if two
/// passes of a run have the same query, and it is the live one throughout
/// each of them, the results on display after the later pass are those on
/// display after the earlier one, and the later pass makes no lookup.
pub proof fn lemma_repeated_query_same_results(
    s: Session,
    passes: Seq<Pass>,
    earlier: int,
    later: int,
)
    requires
        s.wf(),
        0 <= earlier < later < passes.len(),
        passes[earlier].query == passes[later].query,
        passes[earlier].live(),
        passes[later].live(),
    ensures
        !makes_lookup(run_to(s, passes, later), passes[later]),
        run_to(s, passes, later + 1).state.items == run_to(s, passes, earlier + 1).state.items,
{
    let query = passes[earlier].query;
    lemma_run_keeps_session(s, passes.take(earlier));
    lemma_run_step(s, passes, earlier);
    lemma_live_query_is_answered(run_to(s, passes, earlier), passes[earlier]);
    lemma_answers_are_kept(s, passes, earlier + 1, later, query);
    lemma_run_keeps_session(s, passes.take(later));
    lemma_run_step(s, passes, later);
    lemma_live_query_is_answered(run_to(s, passes, later), passes[later]);
    lemma_pass_keeps_session(run_to(s, passes, later), passes[later]);
}

/// While the live query stays what it is, the coordinator looks up that
/// query at most, and shows the answer to no other: after passes over any
/// queries, the answer to the live query is on display if the live query was
/// among them, and if it was not, cache and display are as they were before.
pub proof fn lemma_settled_input(s: Session, passes: Seq<Pass>, live: Seq<char>)
    requires
        s.wf(),
        forall|i: int|
            0 <= i < passes.len() ==> (#[trigger] passes[i]).live_at_start == live
                && passes[i].live_at_return == live,
    ensures
        ({
            let end = run(s, passes);
            let asked = exists|i: int| 0 <= i < passes.len() && (#[trigger] passes[i]).query == live;
            &&& end.lookups == s.lookups || end.lookups == s.lookups.push(live)
            &&& asked ==> end.coordinator.cache.contains_key(live) && end.state.items
                == end.coordinator.cache[live]
            &&& !asked ==> end.coordinator == s.coordinator && end.lookups == s.lookups
                && end.state.items == s.state.items && end.state.selected == s.state.selected
        }),
    decreases passes.len(),
{
    if passes.len() > 0 {
        let before = passes.drop_last();
        let p = passes.last();
        let t0 = run(s, before);
        assert forall|i: int| 0 <= i < before.len() implies (#[trigger] before[i]).live_at_start
            == live && before[i].live_at_return == live && before[i] == passes[i] by {
            assert(before[i] == passes[i]);
        }
        lemma_settled_input(s, before, live);
        lemma_run_keeps_session(s, before);
        if p.query == live {
            // The live query is looked up only if it was not looked up
            // before, and it is answered either way.
            lemma_live_query_is_answered(t0, p);
            if makes_lookup(t0, p) && t0.lookups == s.lookups.push(live) {
                assert(t0.coordinator.cache.contains_key(t0.lookups[s.lookups.len() as int]));
            }
        } else {
            // Any other query is stale, and the pass changes nothing.
            lemma_stale_query_is_dropped(t0, p);
            if exists|i: int| 0 <= i < passes.len() && (#[trigger] passes[i]).query == live {
                let i = choose|i: int| 0 <= i < passes.len() && (#[trigger] passes[i]).query == live;
                assert(before[i].query == live);
            }
        }
    }
}

} // verus!
