//! Bookkeeping for on-demand font fetches.
//!
//! A missing glyph makes the core ask the platform adapter to fetch a family; the
//! adapter reports a load or a failure back. The tracker decides, family by family,
//! whether to ask now:
//!
//! - while a fetch is in flight, no duplicate request goes out;
//! - a failed fetch does not latch the family: it can be requested again later;
//! - a family that keeps failing is given up after a fixed budget of attempts.
use vstd::prelude::*;
use crate::byte_text::str_eq;

verus! {

/// The most fetch attempts per family before the core gives the family up.
pub const MAX_FETCH_ATTEMPTS: u32 = 3;

/// What the core decided on a reported fetch failure.
#[derive(Clone, Copy, Debug, PartialEq, Eq, Structural)]
pub enum FailureOutcome {
    /// Budget is left: the family is requested again on a later frame.
    WillRetry,
    /// The budget is spent: the family is given up and never requested again.
    GaveUp,
}

/// The fetch state of every family, as sets and a map of family names.
pub struct FetchState {
    /// Families requested and awaiting a result.
    pub in_flight: Set<Seq<char>>,
    /// Failed attempts so far, per family, until it loads or is given up.
    pub attempts: Map<Seq<char>, nat>,
    /// Families whose budget is spent.
    pub exhausted: Set<Seq<char>>,
}

/// Whether a fetch of `f` should be requested now: neither in flight nor given up.
pub open spec fn should_request_spec(s: FetchState, f: Seq<char>) -> bool {
    !s.in_flight.contains(f) && !s.exhausted.contains(f)
}

/// The state after a request for `f` went out.
pub open spec fn requested_spec(s: FetchState, f: Seq<char>) -> FetchState {
    FetchState { in_flight: s.in_flight.insert(f), ..s }
}

/// The state after `f` loaded: everything about `f` is forgotten.
pub open spec fn loaded_spec(s: FetchState, f: Seq<char>) -> FetchState {
    FetchState {
        in_flight: s.in_flight.remove(f),
        attempts: s.attempts.remove(f),
        exhausted: s.exhausted.remove(f),
    }
}

/// The number of failed attempts of `f` once one more failure is counted.
pub open spec fn failures_after(s: FetchState, f: Seq<char>) -> nat {
    (if s.attempts.contains_key(f) {
        s.attempts[f]
    } else {
        0
    }) + 1
}

/// The state after a fetch of `f` failed, and the decision taken. A family already
/// given up stays given up: the failure is not counted again and the answer is `GaveUp`.
pub open spec fn failed_spec(s: FetchState, f: Seq<char>) -> (FetchState, FailureOutcome) {
    let n = failures_after(s, f);
    if s.exhausted.contains(f) {
        (FetchState { in_flight: s.in_flight.remove(f), ..s }, FailureOutcome::GaveUp)
    } else if n >= MAX_FETCH_ATTEMPTS {
        (
            FetchState {
                in_flight: s.in_flight.remove(f),
                attempts: s.attempts.remove(f),
                exhausted: s.exhausted.insert(f),
            },
            FailureOutcome::GaveUp,
        )
    } else {
        (
            FetchState {
                in_flight: s.in_flight.remove(f),
                attempts: s.attempts.insert(f, n),
                exhausted: s.exhausted,
            },
            FailureOutcome::WillRetry,
        )
    }
}

/// The names held in a list of strings.
pub open spec fn names(v: Seq<String>) -> Set<Seq<char>> {
    Set::new(|f: Seq<char>| exists|i: int| 0 <= i < v.len() && (#[trigger] v[i])@ == f)
}

/// The count recorded for `f`: that of the last entry for `f`.
pub open spec fn count_in(v: Seq<(String, u32)>, f: Seq<char>) -> Option<u32>
    decreases v.len(),
{
    if v.len() == 0 {
        None
    } else if v.last().0@ == f {
        Some(v.last().1)
    } else {
        count_in(v.drop_last(), f)
    }
}

/// The count map of a list of entries.
pub open spec fn counts(v: Seq<(String, u32)>) -> Map<Seq<char>, nat> {
    Map::new(|f: Seq<char>| count_in(v, f) is Some, |f: Seq<char>| count_in(v, f)->0 as nat)
}

/// Per-family fetch bookkeeping for on-demand font loading.
pub struct FontFetchTracker {
    in_flight: Vec<String>,
    attempts: Vec<(String, u32)>,
    exhausted: Vec<String>,
}

impl View for FontFetchTracker {
    type V = FetchState;

    closed spec fn view(&self) -> FetchState {
        FetchState {
            in_flight: names(self.in_flight@),
            attempts: counts(self.attempts@),
            exhausted: names(self.exhausted@),
        }
    }
}

/// Whether `f` is one of the names in `v`.
fn has_name(v: &Vec<String>, f: &str) -> (r: bool)
    ensures
        r == names(v@).contains(f@),
{
    let mut i: usize = 0;
    while i < v.len()
        invariant
            i <= v@.len(),
            forall|k: int| 0 <= k < i ==> (#[trigger] v@[k])@ != f@,
        decreases v@.len() - i,
    {
        if str_eq(v[i].as_str(), f) {
            assert(v@[i as int]@ == f@);
            return true;
        }
        i = i + 1;
    }
    false
}

/// Adds `f` to the names in `v`.
fn add_name(v: &mut Vec<String>, f: &str)
    ensures
        names(final(v)@) == names(old(v)@).insert(f@),
{
    if !has_name(v, f) {
        let ghost prev = v@;
        v.push(f.to_owned());
        assert(names(v@) =~= names(prev).insert(f@)) by {
            assert(v@[prev.len() as int]@ == f@);
            assert forall|g: Seq<char>| names(v@).contains(g) implies names(prev).insert(f@).contains(g) by {
                let w = choose|i: int| 0 <= i < v@.len() && (#[trigger] v@[i])@ == g;
                if w < prev.len() {
                    assert(prev[w]@ == g);
                }
            }
            assert forall|g: Seq<char>| names(prev).contains(g) implies names(v@).contains(g) by {
                let w = choose|i: int| 0 <= i < prev.len() && (#[trigger] prev[i])@ == g;
                assert(v@[w]@ == g);
            }
        }
    } else {
        assert(names(v@) =~= names(v@).insert(f@));
    }
}

proof fn lemma_names_push(s: Seq<String>, x: String)
    ensures
        names(s.push(x)) =~= names(s).insert(x@),
{
    let t = s.push(x);
    assert(t[s.len() as int] == x);
    assert forall|g: Seq<char>| names(t).contains(g) implies names(s).insert(x@).contains(g) by {
        let w = choose|i: int| 0 <= i < t.len() && (#[trigger] t[i])@ == g;
        if w < s.len() {
            assert(s[w] == t[w]);
        }
    }
    assert forall|g: Seq<char>| names(s).contains(g) implies names(t).contains(g) by {
        let w = choose|i: int| 0 <= i < s.len() && (#[trigger] s[i])@ == g;
        assert(t[w] == s[w]);
    }
}

/// Removes `f` from the names in `v`.
fn remove_name(v: &mut Vec<String>, f: &str)
    ensures
        names(final(v)@) == names(old(v)@).remove(f@),
{
    let mut out: Vec<String> = Vec::new();
    let mut i: usize = 0;
    assert(v@.take(0) =~= Seq::<String>::empty());
    assert(names(out@) =~= names(v@.take(0)).remove(f@));
    while i < v.len()
        invariant
            i <= v@.len(),
            names(out@) == names(v@.take(i as int)).remove(f@),
        decreases v@.len() - i,
    {
        let ghost prev = out@;
        let keep = !str_eq(v[i].as_str(), f);
        assert(v@.take(i + 1) =~= v@.take(i as int).push(v@[i as int]));
        proof {
            lemma_names_push(v@.take(i as int), v@[i as int]);
        }
        if keep {
            let item = v[i].clone();
            out.push(item);
            proof {
                lemma_names_push(prev, item);
            }
        }
        assert(names(out@) =~= names(v@.take(i + 1)).remove(f@));
        i = i + 1;
    }
    assert(v@.take(v@.len() as int) =~= v@);
    *v = out;
}

/// The count recorded for `f`.
fn count_of(v: &Vec<(String, u32)>, f: &str) -> (r: Option<u32>)
    ensures
        r == count_in(v@, f@),
{
    let mut i: usize = v.len();
    assert(v@.take(v@.len() as int) =~= v@);
    while i > 0
        invariant
            i <= v@.len(),
            count_in(v@, f@) == count_in(v@.take(i as int), f@),
        decreases i,
    {
        let ghost t = v@.take(i as int);
        assert(t.drop_last() =~= v@.take(i - 1));
        if str_eq(v[i - 1].0.as_str(), f) {
            return Some(v[i - 1].1);
        }
        i = i - 1;
    }
    assert(v@.take(0) =~= Seq::<(String, u32)>::empty());
    None
}

/// Removes every entry for `f`.
fn remove_count(v: &mut Vec<(String, u32)>, f: &str)
    requires
        forall|i: int| 0 <= i < old(v)@.len() ==> 1 <= (#[trigger] old(v)@[i]).1 < MAX_FETCH_ATTEMPTS,
    ensures
        forall|g: Seq<char>| #[trigger] count_in(final(v)@, g) == if g == f@ {
            None
        } else {
            count_in(old(v)@, g)
        },
        forall|i: int| 0 <= i < final(v)@.len() ==> 1 <= (#[trigger] final(v)@[i]).1 < MAX_FETCH_ATTEMPTS,
{
    let mut out: Vec<(String, u32)> = Vec::new();
    let mut i: usize = 0;
    while i < v.len()
        invariant
            i <= v@.len(),
            forall|k: int| 0 <= k < v@.len() ==> 1 <= (#[trigger] v@[k]).1 < MAX_FETCH_ATTEMPTS,
            forall|k: int| 0 <= k < out@.len() ==> 1 <= (#[trigger] out@[k]).1 < MAX_FETCH_ATTEMPTS,
            forall|g: Seq<char>| #[trigger] count_in(out@, g) == if g == f@ {
                None
            } else {
                count_in(v@.take(i as int), g)
            },
        decreases v@.len() - i,
    {
        let ghost prev = out@;
        let keep = !str_eq(v[i].0.as_str(), f);
        let ghost t1 = v@.take(i + 1);
        assert(t1.drop_last() =~= v@.take(i as int));
        assert(t1.last() == v@[i as int]);
        if keep {
            let name = v[i].0.clone();
            let n = v[i].1;
            out.push((name, n));
            assert(out@.drop_last() =~= prev);
            assert(out@.last().0@ == v@[i as int].0@);
        }
        assert forall|g: Seq<char>| #[trigger] count_in(out@, g) == if g == f@ {
            None
        } else {
            count_in(v@.take(i + 1), g)
        } by {
            assert(count_in(t1, g) == if t1.last().0@ == g { Some(t1.last().1) } else { count_in(t1.drop_last(), g) });
            if keep {
                assert(count_in(out@, g) == if out@.last().0@ == g { Some(out@.last().1) } else { count_in(prev, g) });
            }
        }
        i = i + 1;
    }
    assert(v@.take(v@.len() as int) =~= v@);
    *v = out;
}

impl FontFetchTracker {
    /// The invariant: every recorded count is a live retry count, below the budget.
    pub closed spec fn wf(&self) -> bool {
        forall|i: int| 0 <= i < self.attempts@.len() ==> 1 <= (#[trigger] self.attempts@[i]).1 < MAX_FETCH_ATTEMPTS
    }

    /// A tracker with nothing in flight, no failures and nothing given up.
    pub fn new() -> (r: Self)
        ensures
            r.wf(),
            r@.in_flight == Set::<Seq<char>>::empty(),
            r@.attempts == Map::<Seq<char>, nat>::empty(),
            r@.exhausted == Set::<Seq<char>>::empty(),
    {
        let r = FontFetchTracker { in_flight: Vec::new(), attempts: Vec::new(), exhausted: Vec::new() };
        assert(names(r.in_flight@) =~= Set::<Seq<char>>::empty());
        assert(names(r.exhausted@) =~= Set::<Seq<char>>::empty());
        assert(counts(r.attempts@) =~= Map::<Seq<char>, nat>::empty());
        r
    }

    /// Whether a fetch of `family` should be requested now: only when it is neither
    /// in flight nor given up.
    pub fn should_request(&self, family: &str) -> (r: bool)
        ensures
            r == should_request_spec(self@, family@),
    {
        !has_name(&self.in_flight, family) && !has_name(&self.exhausted, family)
    }

    /// Records that a fetch of `family` was requested.
    pub fn mark_requested(&mut self, family: &str)
        requires
            old(self).wf(),
        ensures
            final(self).wf(),
            final(self)@ == requested_spec(old(self)@, family@),
    {
        add_name(&mut self.in_flight, family);
    }

    /// Records that `family` loaded: all its state is cleared, so that a later missing
    /// glyph can request it afresh.
    pub fn mark_loaded(&mut self, family: &str)
        requires
            old(self).wf(),
        ensures
            final(self).wf(),
            final(self)@ == loaded_spec(old(self)@, family@),
    {
        remove_name(&mut self.in_flight, family);
        let ghost before = self.attempts@;
        remove_count(&mut self.attempts, family);
        remove_name(&mut self.exhausted, family);
        assert(counts(self.attempts@) =~= counts(before).remove(family@));
    }

    /// Records that a fetch of `family` failed, and says whether it will be retried or
    /// has been given up.
    pub fn mark_failed(&mut self, family: &str) -> (r: FailureOutcome)
        requires
            old(self).wf(),
        ensures
            final(self).wf(),
            (final(self)@, r) == failed_spec(old(self)@, family@),
    {
        let ghost old_view = self@;
        remove_name(&mut self.in_flight, family);
        if has_name(&self.exhausted, family) {
            return FailureOutcome::GaveUp;
        }
        let count = match count_of(&self.attempts, family) {
            Some(n) => {
                assert(count_in(self.attempts@, family@) == Some(n));
                proof {
                    lemma_count_in_is_an_entry(self.attempts@, family@);
                }
                n + 1
            },
            None => 1,
        };
        assert(count == failures_after(old_view, family@));
        let ghost before = self.attempts@;
        remove_count(&mut self.attempts, family);
        if count >= MAX_FETCH_ATTEMPTS {
            add_name(&mut self.exhausted, family);
            assert(counts(self.attempts@) =~= counts(before).remove(family@));
            FailureOutcome::GaveUp
        } else {
            let ghost removed = self.attempts@;
            self.attempts.push((family.to_owned(), count));
            assert(self.attempts@.last().0@ == family@);
            assert(self.attempts@.drop_last() =~= removed);
            assert forall|g: Seq<char>| #[trigger] count_in(self.attempts@, g) == if g == family@ {
                Some(count)
            } else {
                count_in(before, g)
            } by {
                assert(count_in(self.attempts@, g) == if self.attempts@.last().0@ == g { Some(self.attempts@.last().1) } else { count_in(removed, g) });
            }
            assert(counts(self.attempts@) =~= counts(before).insert(family@, count as nat));
            FailureOutcome::WillRetry
        }
    }
}

proof fn lemma_count_in_is_an_entry(v: Seq<(String, u32)>, f: Seq<char>)
    requires
        count_in(v, f) is Some,
    ensures
        exists|i: int| 0 <= i < v.len() && (#[trigger] v[i]).1 == count_in(v, f)->0,
    decreases v.len(),
{
    if v.last().0@ != f {
        lemma_count_in_is_an_entry(v.drop_last(), f);
        let w = choose|i: int| 0 <= i < v.drop_last().len() && (#[trigger] v.drop_last()[i]).1 == count_in(v, f)->0;
        assert(v[w] == v.drop_last()[w]);
    } else {
        assert(v[v.len() - 1] == v.last());
    }
}

/// `n` rounds of a request for `f` followed by a failure.
pub open spec fn fail_rounds(s: FetchState, f: Seq<char>, n: nat) -> (FetchState, FailureOutcome)
    decreases n,
{
    if n == 0 {
        (s, FailureOutcome::WillRetry)
    } else {
        failed_spec(requested_spec(fail_rounds(s, f, (n - 1) as nat).0, f), f)
    }
}

proof fn lemma_rounds_after_giving_up(s: FetchState, f: Seq<char>, n: nat)
    requires
        n >= MAX_FETCH_ATTEMPTS,
        fail_rounds(s, f, MAX_FETCH_ATTEMPTS as nat).0.exhausted.contains(f),
    ensures
        fail_rounds(s, f, n).0.exhausted.contains(f),
        n > MAX_FETCH_ATTEMPTS ==> fail_rounds(s, f, n).1 == FailureOutcome::GaveUp,
    decreases n,
{
    if n > MAX_FETCH_ATTEMPTS {
        lemma_rounds_after_giving_up(s, f, (n - 1) as nat);
    }
}

/// The retry budget: a family with no failures on record that fails over and over
/// is retried after each of the first `MAX_FETCH_ATTEMPTS - 1` failures (and may be
/// requested again each time), and given up at the `MAX_FETCH_ATTEMPTS`-th; from
/// then on every failure answers `GaveUp` and it is no longer requested.
pub proof fn law_failures_exhaust_the_budget(s: FetchState, f: Seq<char>)
    requires
        !s.attempts.contains_key(f),
        !s.exhausted.contains(f),
    ensures
        forall|n: nat|
            1 <= n < MAX_FETCH_ATTEMPTS ==> (#[trigger] fail_rounds(s, f, n)).1
                == FailureOutcome::WillRetry && should_request_spec(fail_rounds(s, f, n).0, f),
        forall|n: nat|
            n >= MAX_FETCH_ATTEMPTS ==> (#[trigger] fail_rounds(s, f, n)).1 == FailureOutcome::GaveUp
                && !should_request_spec(fail_rounds(s, f, n).0, f),
{
    reveal_with_fuel(fail_rounds, 4);
    let r1 = fail_rounds(s, f, 1);
    let r2 = fail_rounds(s, f, 2);
    assert(r1.0.attempts[f] == 1);
    assert(r2.0.attempts[f] == 2);
    assert forall|n: nat|
        1 <= n < MAX_FETCH_ATTEMPTS implies (#[trigger] fail_rounds(s, f, n)).1
            == FailureOutcome::WillRetry && should_request_spec(fail_rounds(s, f, n).0, f) by {
        if n == 1 {
        } else {
            assert(n == 2);
        }
    }
    let r3 = fail_rounds(s, f, 3);
    assert(r3.1 == FailureOutcome::GaveUp && r3.0.exhausted.contains(f));
    assert forall|n: nat|
        n >= MAX_FETCH_ATTEMPTS implies (#[trigger] fail_rounds(s, f, n)).1
            == FailureOutcome::GaveUp && !should_request_spec(fail_rounds(s, f, n).0, f) by {
        lemma_rounds_after_giving_up(s, f, n);
    }
}

/// A given-up family stays given up through requests and failures of any family,
/// and only a load of that family clears it; every further failure of a given-up
/// family answers `GaveUp`; a loaded family can be requested again.
pub proof fn law_only_a_load_clears_exhaustion(s: FetchState, f: Seq<char>, g: Seq<char>)
    ensures
        s.exhausted.contains(f) ==> failed_spec(s, f).1 == FailureOutcome::GaveUp
            && !should_request_spec(failed_spec(s, f).0, f),
        s.exhausted.contains(f) ==> requested_spec(s, g).exhausted.contains(f),
        s.exhausted.contains(f) ==> failed_spec(s, g).0.exhausted.contains(f),
        s.exhausted.contains(f) && f != g ==> loaded_spec(s, g).exhausted.contains(f),
        should_request_spec(loaded_spec(s, f), f),
{
}

/// One reported event of the fetch bookkeeping.
pub enum FetchEvent {
    Requested(Seq<char>),
    Failed(Seq<char>),
    Loaded(Seq<char>),
}

/// The state after one event.
pub open spec fn fetch_step(s: FetchState, e: FetchEvent) -> FetchState {
    match e {
        FetchEvent::Requested(g) => requested_spec(s, g),
        FetchEvent::Failed(g) => failed_spec(s, g).0,
        FetchEvent::Loaded(g) => loaded_spec(s, g),
    }
}

/// The state after a run of events, in order.
pub open spec fn fetch_run(s: FetchState, es: Seq<FetchEvent>) -> FetchState
    decreases es.len(),
{
    if es.len() == 0 {
        s
    } else {
        fetch_step(fetch_run(s, es.drop_last()), es.last())
    }
}

/// The number of failures of `f` in a run of events.
pub open spec fn failures_of(es: Seq<FetchEvent>, f: Seq<char>) -> nat
    decreases es.len(),
{
    if es.len() == 0 {
        0
    } else {
        failures_of(es.drop_last(), f) + if es.last() == FetchEvent::Failed(f) {
            1nat
        } else {
            0nat
        }
    }
}

/// No event of the run is a load of `f`.
pub open spec fn no_load_of(es: Seq<FetchEvent>, f: Seq<char>) -> bool {
    forall|i: int| 0 <= i < es.len() ==> es[i] != FetchEvent::Loaded(f)
}

proof fn lemma_run_counts(s: FetchState, es: Seq<FetchEvent>, f: Seq<char>)
    requires
        !s.attempts.contains_key(f),
        !s.exhausted.contains(f),
        no_load_of(es, f),
    ensures
        ({
            let t = fetch_run(s, es);
            let n = failures_of(es, f);
            &&& n < MAX_FETCH_ATTEMPTS ==> !t.exhausted.contains(f) && (if n == 0 {
                !t.attempts.contains_key(f)
            } else {
                t.attempts.contains_key(f) && t.attempts[f] == n
            })
            &&& n >= MAX_FETCH_ATTEMPTS ==> t.exhausted.contains(f)
        }),
    decreases es.len(),
{
    if es.len() > 0 {
        let rest = es.drop_last();
        assert forall|i: int| 0 <= i < rest.len() implies rest[i] != FetchEvent::Loaded(f) by {
            assert(rest[i] == es[i]);
        }
        lemma_run_counts(s, rest, f);
        assert(es.last() == es[es.len() - 1]);
    }
}

/// The retry budget, whatever requests, loads of other families and failures of other
/// families come between the failures of `f`: starting with nothing on record for `f`
/// and with no load of `f` on the way, a failure of `f` after `n` earlier ones answers
/// `WillRetry` exactly when `n + 1 < MAX_FETCH_ATTEMPTS`, after which `f` can be
/// requested again; once `f` has failed `MAX_FETCH_ATTEMPTS` times it is given up, is
/// never requested, and every further failure answers `GaveUp`.
pub proof fn law_retry_budget_through_any_run(s: FetchState, es: Seq<FetchEvent>, f: Seq<char>)
    requires
        !s.attempts.contains_key(f),
        !s.exhausted.contains(f),
        no_load_of(es, f),
    ensures
        (failed_spec(fetch_run(s, es), f).1 == FailureOutcome::WillRetry) == (failures_of(es, f) + 1
            < MAX_FETCH_ATTEMPTS),
        failed_spec(fetch_run(s, es), f).1 == FailureOutcome::WillRetry ==> should_request_spec(
            failed_spec(fetch_run(s, es), f).0,
            f,
        ),
        failures_of(es, f) >= MAX_FETCH_ATTEMPTS ==> !should_request_spec(fetch_run(s, es), f),
        !failed_spec(fetch_run(s, es), f).0.in_flight.contains(f),
{
    lemma_run_counts(s, es, f);
}

} // verus!
