//! The storage-engine interface: the shared error taxonomy, the
//! mathematical model of an engine's state, and the laws that every
//! engine obeys.

pub mod memory;
pub mod redis;

use vstd::prelude::*;

verus! {

use vstd::multiset::Multiset;

/// The closed set of failure kinds shared by every engine variant.
#[derive(Debug)]
pub enum BackendError {
    /// The operation targets an id with no live entry.
    NotFound,
    /// A `since`/now arithmetic step overflows the representable time range.
    DateTimeOverflow,
    /// Reserved for future wire/on-disk format changes.
    UnsupportedVersion,
    /// Any transport- or store-level failure, with its cause preserved.
    Internal(String),
}

impl BackendError {
    /// A human-readable description, in place of `Display`.
    pub fn message(&self) -> (r: String)
        ensures
            self is NotFound ==> r@ == "Shorten not found"@,
            self is DateTimeOverflow ==> r@ == "Datetime overflow"@,
            self is UnsupportedVersion ==> r@ == "Unsupported version"@,
            self matches BackendError::Internal(cause) ==> r@ == cause@,
    {
        match self {
            BackendError::NotFound => {
                let s = "Shorten not found".to_owned();
                proof {
                    reveal_strlit("Shorten not found");
                }
                s
            },
            BackendError::DateTimeOverflow => {
                let s = "Datetime overflow".to_owned();
                proof {
                    reveal_strlit("Datetime overflow");
                }
                s
            },
            BackendError::UnsupportedVersion => {
                let s = "Unsupported version".to_owned();
                proof {
                    reveal_strlit("Unsupported version");
                }
                s
            },
            BackendError::Internal(cause) => cause.clone(),
        }
    }
}

/// The abstract state of a storage engine.
///
/// `next_id` is the high-water mark: the last identifier issued (0 when
/// none was). `live` maps each live id to its destination; `events` maps
/// each live id to the multiset of timestamps of its recorded accesses.
pub struct EngineModel {
    pub next_id: u64,
    pub live: Map<u64, Seq<char>>,
    pub events: Map<u64, Multiset<i64>>,
}

impl EngineModel {
    /// The state of a freshly created engine: nothing stored.
    pub open spec fn empty() -> EngineModel {
        EngineModel { next_id: 0, live: Map::empty(), events: Map::empty() }
    }

    /// Well-formedness: stats exist exactly for live ids, and every live
    /// id was issued by the counter (so never lies above it, nor at 0).
    pub open spec fn wf(self) -> bool {
        &&& self.events.dom() == self.live.dom()
        &&& forall|id: u64| self.live.contains_key(id) ==> 1 <= id <= self.next_id
    }

    /// Whether a `store` call can allocate a fresh id.
    pub open spec fn can_store(self) -> bool {
        self.next_id < u64::MAX
    }

    /// The id that the next successful `store` returns.
    pub open spec fn fresh_id(self) -> u64 {
        (self.next_id + 1) as u64
    }

    /// The state after a successful `store` of `url`.
    pub open spec fn store_ok(self, url: Seq<char>) -> EngineModel {
        EngineModel {
            next_id: self.fresh_id(),
            live: self.live.insert(self.fresh_id(), url),
            events: self.events.insert(self.fresh_id(), Multiset::empty()),
        }
    }

    /// The state after a successful `retrieve` of `id` at time `ts`:
    /// one access event is recorded, nothing else changes.
    pub open spec fn record_ok(self, id: u64, ts: i64) -> EngineModel {
        EngineModel {
            next_id: self.next_id,
            live: self.live,
            events: self.events.insert(id, self.events[id].insert(ts)),
        }
    }

    /// The state after a successful `update` of `id` to `url`:
    /// the destination is replaced, events and counter are untouched.
    pub open spec fn update_ok(self, id: u64, url: Seq<char>) -> EngineModel {
        EngineModel { next_id: self.next_id, live: self.live.insert(id, url), events: self.events }
    }

    /// The state after a successful `delete` of `id`: the entry and all
    /// its stat data are removed; the counter keeps its high-water mark.
    pub open spec fn delete_ok(self, id: u64) -> EngineModel {
        EngineModel {
            next_id: self.next_id,
            live: self.live.remove(id),
            events: self.events.remove(id),
        }
    }
}

/// How many recorded events of `events` fall in the window `[lo, hi]`.
pub open spec fn count_in_window(events: Multiset<i64>, lo: int, hi: int) -> nat {
    events.filter(|t: i64| lo <= t <= hi).len()
}

/// The default stat window reaches back 24 hours from `now`.
pub open spec fn default_window_start(now: i64) -> int {
    now - 86400
}

/// The start of the queried window: `since` when given, else the
/// trailing 24 hours.
pub open spec fn window_start(since: Option<i64>, now: i64) -> int {
    match since {
        Some(s) => s as int,
        None => default_window_start(now),
    }
}

/// Counting splits over a multiset union.
pub proof fn lemma_count_add(m1: Multiset<i64>, m2: Multiset<i64>, lo: int, hi: int)
    ensures
        count_in_window(m1.add(m2), lo, hi) == count_in_window(m1, lo, hi) + count_in_window(
            m2,
            lo,
            hi,
        ),
{
    broadcast use vstd::multiset::group_multiset_axioms;

    let f = |t: i64| lo <= t <= hi;
    assert(m1.add(m2).filter(f) =~= m1.filter(f).add(m2.filter(f)));
}

/// An empty multiset has no events in any window.
pub proof fn lemma_count_empty(lo: int, hi: int)
    ensures
        count_in_window(Multiset::empty(), lo, hi) == 0,
{
    broadcast use vstd::multiset::group_multiset_axioms;

    let f = |t: i64| lo <= t <= hi;
    assert(Multiset::<i64>::empty().filter(f) =~= Multiset::<i64>::empty());
}

/// Inserting an event adds one to the count when the event lies in the
/// window and leaves the count unchanged otherwise.
pub proof fn lemma_count_insert(m: Multiset<i64>, x: i64, lo: int, hi: int)
    ensures
        lo <= x <= hi ==> count_in_window(m.insert(x), lo, hi) == count_in_window(m, lo, hi) + 1,
        !(lo <= x <= hi) ==> count_in_window(m.insert(x), lo, hi) == count_in_window(m, lo, hi),
{
    broadcast use vstd::multiset::group_multiset_axioms;

    let f = |t: i64| lo <= t <= hi;
    if lo <= x <= hi {
        assert(m.insert(x).filter(f) =~= m.filter(f).insert(x));
    } else {
        assert(m.insert(x).filter(f) =~= m.filter(f));
    }
}

/// The storage-engine contract: the five operations every backend
/// variant offers, stated over the abstract model.
pub trait Backend: Sized {
    /// The abstract state this backend currently represents.
    spec fn model(&self) -> EngineModel;

    /// Allocates the next id for this instance and persists the
    /// mapping. Succeeds whenever the id space is not exhausted.
    fn store(&mut self, url: &str) -> (r: Result<u64, BackendError>)
        ensures
            match r {
                Ok(id) => old(self).model().can_store() && id == old(self).model().fresh_id()
                    && final(self).model() == old(self).model().store_ok(url@),
                Err(e) => !old(self).model().can_store() && e is Internal && final(self).model()
                    == old(self).model(),
            },
    ;

    /// Returns the destination of `id`, recording one access event at
    /// the current time as a best-effort side effect: a recording
    /// failure must not fail the read. Fails with not-found exactly when
    /// no live entry has that id.
    fn retrive(&mut self, id: u64) -> (r: Result<String, BackendError>)
        ensures
            match r {
                Ok(url) => old(self).model().live.contains_key(id) && url@ == old(self).model().live[id] && (final(self).model() == old(self).model() || exists|ts: i64|
                    final(self).model() == old(self).model().record_ok(id, ts)),
                Err(e) => e is NotFound && !old(self).model().live.contains_key(id) && final(self).model() == old(self).model(),
            },
    ;

    /// The number of access events of `id` since `since` (or over the
    /// trailing 24 hours when omitted), up to the current time. Fails
    /// with not-found exactly when the id is not live; a live id with no
    /// events in the window reports zero.
    fn stat(&self, id: u64, since: Option<i64>) -> (r: Result<u64, BackendError>)
        ensures
            match r {
                Ok(c) => self.model().live.contains_key(id) && exists|now: i64|
                    c == count_in_window(
                        self.model().events[id],
                        window_start(since, now),
                        now as int,
                    ),
                Err(e) => if e is NotFound {
                    !self.model().live.contains_key(id)
                } else {
                    self.model().live.contains_key(id)
                },
            },
    ;

    /// Replaces the destination of `id` only; events and the counter are
    /// untouched. Fails with not-found exactly when the id is not live.
    fn update(&mut self, id: u64, url: &str) -> (r: Result<(), BackendError>)
        ensures
            match r {
                Ok(_) => old(self).model().live.contains_key(id) && final(self).model() == old(self).model().update_ok(id, url@),
                Err(e) => e is NotFound && !old(self).model().live.contains_key(id) && final(self).model() == old(self).model(),
            },
    ;

    /// Removes the entry and all its stat data. Fails with not-found
    /// exactly when the id is not live, so a second delete of the same
    /// id fails.
    fn delete(&mut self, id: u64) -> (r: Result<(), BackendError>)
        ensures
            match r {
                Ok(_) => old(self).model().live.contains_key(id) && final(self).model() == old(self).model().delete_ok(id),
                Err(e) => e is NotFound && !old(self).model().live.contains_key(id) && final(self).model() == old(self).model(),
            },
    ;
}

/// Law: on one engine instance, consecutive successful stores return
/// strictly increasing ids covering a contiguous range: each store's id
/// is one above the previous high-water mark.
pub proof fn lemma_store_ids_strictly_increase(m: EngineModel, u1: Seq<char>, u2: Seq<char>)
    requires
        m.can_store(),
        m.store_ok(u1).can_store(),
    ensures
        m.store_ok(u1).fresh_id() == m.fresh_id() + 1,
        m.store_ok(u1).fresh_id() > m.fresh_id(),
{
}

/// The state after storing each of `urls` in order.
pub open spec fn store_many(m: EngineModel, urls: Seq<Seq<char>>) -> EngineModel
    decreases urls.len(),
{
    if urls.len() == 0 {
        m
    } else {
        store_many(m, urls.drop_last()).store_ok(urls.last())
    }
}

/// Law: over any sequence of stores on one engine instance, the
/// returned ids (the `fresh_id` of the state each store runs in) are
/// exactly the contiguous range just above the engine's prior
/// high-water mark — strictly increasing, with no duplicates.
pub proof fn lemma_store_sequence_ids(m: EngineModel, urls: Seq<Seq<char>>)
    requires
        m.next_id + urls.len() <= u64::MAX,
    ensures
        store_many(m, urls).next_id == m.next_id + urls.len(),
        forall|k: int|
            0 <= k < urls.len() ==> #[trigger] store_many(m, urls.take(k)).fresh_id() == m.next_id
                + k + 1,
    decreases urls.len(),
{
    if urls.len() > 0 {
        lemma_store_sequence_ids(m, urls.drop_last());
        assert(urls.drop_last() =~= urls.take(urls.len() - 1));
        assert forall|k: int|
            0 <= k < urls.len() implies #[trigger] store_many(m, urls.take(k)).fresh_id()
            == m.next_id + k + 1 by {
            if k < urls.len() - 1 {
                assert(urls.take(k) =~= urls.drop_last().take(k));
            } else {
                assert(urls.take(k) =~= urls.drop_last());
            }
        }
    }
}

/// Law: a successful store issues an id that no live entry holds; since
/// the high-water mark never decreases, an id is never issued twice.
pub proof fn lemma_fresh_id_is_new(m: EngineModel)
    requires
        m.wf(),
        m.can_store(),
    ensures
        !m.live.contains_key(m.fresh_id()),
{
}

/// Law: an id above the high-water mark (or zero) was never issued, so
/// no live entry holds it; by the stat contract, `stat` on such an id
/// fails with not-found.
pub proof fn lemma_unissued_id_is_absent(m: EngineModel, id: u64)
    requires
        m.wf(),
        id > m.next_id || id == 0,
    ensures
        !m.live.contains_key(id),
{
}

/// Law: a stored but never-retrieved id reports zero events in every
/// window (not a not-found failure).
pub proof fn lemma_stat_of_fresh_entry_is_zero(m: EngineModel, url: Seq<char>, lo: int, hi: int)
    requires
        m.can_store(),
    ensures
        m.store_ok(url).live.contains_key(m.fresh_id()),
        count_in_window(m.store_ok(url).events[m.fresh_id()], lo, hi) == 0,
{
    lemma_count_empty(lo, hi);
}

/// Law: delete is terminal. After a delete the id is no longer live, so
/// by the operations' contracts a subsequent retrieve, update, stat, or
/// second delete of that id all fail with not-found; and the high-water
/// mark keeps its value, so the id is never issued again.
pub proof fn lemma_delete_is_terminal(m: EngineModel, id: u64)
    ensures
        !m.delete_ok(id).live.contains_key(id),
        m.delete_ok(id).next_id == m.next_id,
{
}

/// Law: every transition preserves well-formedness, and none lowers the
/// high-water mark.
pub proof fn lemma_transitions_preserve_wf(m: EngineModel, url: Seq<char>, id: u64, ts: i64)
    requires
        m.wf(),
    ensures
        m.can_store() ==> m.store_ok(url).wf() && m.store_ok(url).next_id == m.next_id + 1,
        m.live.contains_key(id) ==> m.record_ok(id, ts).wf() && m.record_ok(id, ts).next_id
            == m.next_id,
        m.live.contains_key(id) ==> m.update_ok(id, url).wf() && m.update_ok(id, url).next_id
            == m.next_id,
        m.delete_ok(id).wf() && m.delete_ok(id).next_id == m.next_id,
{
    if m.can_store() {
        assert(m.store_ok(url).events.dom() =~= m.store_ok(url).live.dom());
    }
    if m.live.contains_key(id) {
        assert(m.record_ok(id, ts).events.dom() =~= m.record_ok(id, ts).live.dom());
        assert(m.update_ok(id, url).events.dom() =~= m.update_ok(id, url).live.dom());
    }
    assert(m.delete_ok(id).events.dom() =~= m.delete_ok(id).live.dom());
}

} // verus!
