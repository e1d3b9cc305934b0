//! The in-process reference engine: a monotonic counter, an
//! id-to-destination mapping, and a day-partitioned stat structure.
//!
//! Unlike the networked engine, this variant keeps old day buckets
//! indefinitely; stat data is only removed when the entry is deleted.
//! The original guards its structures with locks for concurrent tasks;
//! here the engine is a sequential data structure and callers hold it
//! behind `&mut` exclusivity.

use vstd::prelude::*;

verus! {

use std::collections::HashMap;
use vstd::multiset::Multiset;
use crate::backend::{
    Backend,
    BackendError,
    EngineModel,
    count_in_window,
    lemma_count_add,
    lemma_count_empty,
    lemma_count_insert,
    window_start,
};
use crate::calendar::day_of;

/// One day's recorded access timestamps for one id.
pub(crate) struct DayBucket {
    pub(crate) day: i64,
    pub(crate) times: Vec<i64>,
}

/// Every timestamp of the bucket falls on the bucket's day.
pub(crate) open spec fn bucket_wf(b: DayBucket) -> bool {
    forall|i: int| 0 <= i < b.times@.len() ==> day_of(#[trigger] b.times@[i] as int) == b.day as int
}

pub(crate) open spec fn buckets_wf(s: Seq<DayBucket>) -> bool {
    forall|i: int| 0 <= i < s.len() ==> bucket_wf(#[trigger] s[i])
}

/// All timestamps recorded across a sequence of day buckets.
pub(crate) open spec fn buckets_ms(s: Seq<DayBucket>) -> Multiset<i64>
    decreases s.len(),
{
    if s.len() == 0 {
        Multiset::empty()
    } else {
        buckets_ms(s.drop_last()).add(s.last().times@.to_multiset())
    }
}

/// Appending a bucket extends the event multiset by that bucket's times.
proof fn lemma_buckets_ms_push(s: Seq<DayBucket>, b: DayBucket)
    ensures
        buckets_ms(s.push(b)) == buckets_ms(s).add(b.times@.to_multiset()),
{
    assert(s.push(b).drop_last() =~= s);
    assert(s.push(b).last() == b);
}

/// Replacing bucket `i`'s times by the same times with one more
/// timestamp inserts exactly that timestamp into the flattened multiset.
proof fn lemma_buckets_ms_update(s: Seq<DayBucket>, i: int, b2: DayBucket, t: i64)
    requires
        0 <= i < s.len(),
        b2.times@ == s[i].times@.push(t),
    ensures
        buckets_ms(s.update(i, b2)) =~= buckets_ms(s).insert(t),
    decreases s.len(),
{
    broadcast use vstd::multiset::group_multiset_axioms;

    s[i].times@.to_multiset_ensures();
    if i == s.len() - 1 {
        assert(s.update(i, b2).drop_last() =~= s.drop_last());
        assert(s.update(i, b2).last() == b2);
        assert(b2.times@.to_multiset() =~= s[i].times@.to_multiset().insert(t));
    } else {
        assert(s.update(i, b2).drop_last() =~= s.drop_last().update(i, b2));
        assert(s.update(i, b2).last() == s.last());
        lemma_buckets_ms_update(s.drop_last(), i, b2, t);
    }
}

/// A well-formed bucket whose day lies outside the window's day range
/// contributes nothing to the windowed count.
proof fn lemma_bucket_outside_day_range(b: DayBucket, lo: int, hi: int)
    requires
        bucket_wf(b),
        b.day < day_of(lo) || b.day > day_of(hi),
    ensures
        count_in_window(b.times@.to_multiset(), lo, hi) == 0,
{
    broadcast use vstd::multiset::group_multiset_axioms;

    b.times@.to_multiset_ensures();
    let f = |t: i64| lo <= t <= hi;
    let ms = b.times@.to_multiset();
    assert forall|v: i64| true implies ms.filter(f).count(v) == 0 by {
        if f(v) && ms.count(v) > 0 {
            assert(b.times@.contains(v));
            let j = choose|j: int| 0 <= j < b.times@.len() && b.times@[j] == v;
            assert(day_of(v as int) == b.day as int);
            crate::calendar::lemma_day_of_ordered(lo, v as int);
            crate::calendar::lemma_day_of_ordered(v as int, hi);
        }
    }
    assert(ms.filter(f) =~= Multiset::<i64>::empty());
}

/// Count the events of one bucket that fall in `[lo, hi]`.
fn count_bucket(times: &Vec<i64>, lo: i64, hi: i64) -> (r: u64)
    ensures
        r == count_in_window(times@.to_multiset(), lo as int, hi as int),
        r <= times@.len(),
{
    broadcast use vstd::multiset::group_multiset_axioms;

    let mut c: u64 = 0;
    let n = times.len();
    proof {
        assert(times@.take(0) =~= Seq::<i64>::empty());
        Seq::<i64>::empty().to_multiset_ensures();
        assert(Seq::<i64>::empty().to_multiset() =~= Multiset::<i64>::empty());
        lemma_count_empty(lo as int, hi as int);
    }
    for i in 0..n
        invariant
            n == times@.len(),
            c == count_in_window(times@.take(i as int).to_multiset(), lo as int, hi as int),
            c <= i,
    {
        let t = times[i];
        proof {
            assert(times@.take(i + 1) =~= times@.take(i as int).push(times@[i as int]));
            times@.take(i as int).to_multiset_ensures();
            lemma_count_insert(
                times@.take(i as int).to_multiset(),
                times@[i as int],
                lo as int,
                hi as int,
            );
        }
        if lo <= t && t <= hi {
            c = c + 1;
        }
    }
    proof {
        assert(times@.take(n as int) =~= times@);
    }
    c
}

/// Prefixes of a bucket sequence never count more than the whole.
proof fn lemma_count_prefix_le(s: Seq<DayBucket>, j: int, lo: int, hi: int)
    requires
        0 <= j <= s.len(),
    ensures
        count_in_window(buckets_ms(s.take(j)), lo, hi) <= count_in_window(buckets_ms(s), lo, hi),
    decreases s.len() - j,
{
    if j == s.len() {
        assert(s.take(j) =~= s);
    } else {
        assert(s.take(j + 1) =~= s.take(j).push(s[j]));
        lemma_buckets_ms_push(s.take(j), s[j]);
        lemma_count_add(buckets_ms(s.take(j)), s[j].times@.to_multiset(), lo, hi);
        lemma_count_prefix_le(s, j + 1, lo, hi);
    }
}

/// Count all events in `[lo, hi]` across the buckets, scanning only the
/// buckets whose day can intersect the window. `None` reports a count
/// beyond `u64`.
fn count_events(buckets: &Vec<DayBucket>, lo: i64, hi: i64) -> (r: Option<u64>)
    requires
        buckets_wf(buckets@),
    ensures
        match r {
            Some(c) => c == count_in_window(buckets_ms(buckets@), lo as int, hi as int),
            None => count_in_window(buckets_ms(buckets@), lo as int, hi as int) > u64::MAX,
        },
{
    let dlo = day_number_i64(lo);
    let dhi = day_number_i64(hi);
    let mut total: u64 = 0;
    let n = buckets.len();
    proof {
        assert(buckets@.take(0) =~= Seq::<DayBucket>::empty());
        lemma_count_empty(lo as int, hi as int);
    }
    for i in 0..n
        invariant
            n == buckets@.len(),
            buckets_wf(buckets@),
            dlo == day_of(lo as int),
            dhi == day_of(hi as int),
            total == count_in_window(buckets_ms(buckets@.take(i as int)), lo as int, hi as int),
    {
        proof {
            assert(buckets@.take(i + 1) =~= buckets@.take(i as int).push(buckets@[i as int]));
            lemma_buckets_ms_push(buckets@.take(i as int), buckets@[i as int]);
            lemma_count_add(
                buckets_ms(buckets@.take(i as int)),
                buckets@[i as int].times@.to_multiset(),
                lo as int,
                hi as int,
            );
        }
        let b = &buckets[i];
        if dlo <= b.day && b.day <= dhi {
            proof {
                buckets@[i as int].times@.to_multiset_ensures();
            }
            let c = count_bucket(&b.times, lo, hi);
            match total.checked_add(c) {
                Some(t) => {
                    total = t;
                },
                None => {
                    proof {
                        lemma_count_prefix_le(buckets@, i + 1, lo as int, hi as int);
                    }
                    return None;
                },
            }
        } else {
            proof {
                lemma_bucket_outside_day_range(buckets@[i as int], lo as int, hi as int);
            }
        }
    }
    proof {
        assert(buckets@.take(n as int) =~= buckets@);
    }
    Some(total)
}

/// The in-process engine's native failure causes, mapped into the
/// shared taxonomy at the engine's boundary.
#[derive(Debug)]
pub enum MemoryBackendError {
    NotFound,
}

impl MemoryBackendError {
    /// The shared error kind for this native cause.
    pub fn to_backend_error(self) -> (r: BackendError)
        ensures
            r is NotFound,
    {
        match self {
            MemoryBackendError::NotFound => BackendError::NotFound,
        }
    }
}

/// The in-process reference engine.
pub struct InMemoryBackend {
    counter: u64,
    storage: HashMap<u64, String>,
    stat: HashMap<u64, Vec<DayBucket>>,
}

impl View for InMemoryBackend {
    type V = EngineModel;

    closed spec fn view(&self) -> EngineModel {
        EngineModel {
            next_id: self.counter,
            live: Map::new(
                |id: u64| self.storage@.contains_key(id),
                |id: u64| self.storage@[id]@,
            ),
            events: Map::new(
                |id: u64| self.storage@.contains_key(id),
                |id: u64|
                    if self.stat@.contains_key(id) {
                        buckets_ms(self.stat@[id]@)
                    } else {
                        Multiset::empty()
                    },
            ),
        }
    }
}

impl InMemoryBackend {
    /// Ids are issued only by the counter, and recorded stats are
    /// day-partitioned correctly.
    #[verifier::type_invariant]
    spec fn inv(&self) -> bool {
        &&& forall|id: u64| self.storage@.contains_key(id) ==> 1 <= id <= self.counter
        &&& forall|id: u64| self.stat@.contains_key(id) ==> 1 <= id <= self.counter
        &&& forall|id: u64|
            self.stat@.contains_key(id) ==> buckets_wf(#[trigger] self.stat@[id]@)
    }

    /// A fresh engine: nothing stored, no events.
    pub fn new() -> (r: Self)
        ensures
            r@ == EngineModel::empty(),
            r@.wf(),
    {
        let r = InMemoryBackend { counter: 0, storage: HashMap::new(), stat: HashMap::new() };
        proof {
            assert(r@.live =~= Map::<u64, Seq<char>>::empty());
            assert(r@.events =~= Map::<u64, Multiset<i64>>::empty());
            assert(r@ =~= EngineModel::empty());
        }
        r
    }

    /// Lets a verified caller observe that the model of every reachable
    /// engine state is well formed.
    pub fn model_is_wf(&self)
        ensures
            self@.wf(),
    {
        proof {
            use_type_invariant(self);
            assert(self@.events.dom() =~= self@.live.dom());
        }
    }

    /// Looks up the destination of `id` and, on success, records one
    /// access event at time `now`. Fails with not-found when no live
    /// entry has that id.
    pub fn retrive_at(&mut self, id: u64, now: i64) -> (r: Result<String, BackendError>)
        ensures
            match r {
                Ok(url) => old(self)@.live.contains_key(id) && url@ == old(self)@.live[id] && final(self)@
                    == old(self)@.record_ok(id, now),
                Err(e) => e is NotFound && !old(self)@.live.contains_key(id) && final(self)@ == old(self)@,
            },
    {
        proof {
            use_type_invariant(&*self);
        }
        let url = match self.storage.get(&id) {
            Some(u) => u.clone(),
            None => {
                return Err(BackendError::NotFound);
            },
        };
        let d = day_number_i64(now);
        let mut stat: HashMap<u64, Vec<DayBucket>> = HashMap::new();
        std::mem::swap(&mut self.stat, &mut stat);
        let mut buckets: Vec<DayBucket> = match stat.remove(&id) {
            Some(v) => v,
            None => Vec::new(),
        };
        let ghost old_ms = old(self)@.events[id];
        proof {
            assert(buckets_ms(Seq::<DayBucket>::empty()) == Multiset::<i64>::empty());
            assert(buckets_ms(buckets@) == old_ms);
        }
        let mut i: usize = 0;
        let n = buckets.len();
        while i < n
            invariant
                0 <= i <= n,
                n == buckets@.len(),
                forall|j: int| 0 <= j < i ==> (#[trigger] buckets@[j]).day != d,
            ensures
                0 <= i <= n,
                n == buckets@.len(),
                i < n ==> buckets@[i as int].day == d,
            decreases n - i,
        {
            if buckets[i].day == d {
                break ;
            }
            i = i + 1;
        }
        if i < n {
            let mut b = buckets.remove(i);
            b.times.push(now);
            let ghost b2 = b;
            buckets.insert(i, b);
            proof {
                assert(buckets@ =~= old(self).stat@[id]@.update(i as int, b2));
                lemma_buckets_ms_update(old(self).stat@[id]@, i as int, b2, now);
            }
        } else {
            let mut times: Vec<i64> = Vec::new();
            times.push(now);
            let b = DayBucket { day: d, times };
            let ghost s0 = buckets@;
            buckets.push(b);
            proof {
                lemma_buckets_ms_push(s0, b);
                Seq::<i64>::empty().to_multiset_ensures();
                assert(Seq::<i64>::empty().to_multiset() =~= Multiset::<i64>::empty());
                assert(b.times@ =~= Seq::<i64>::empty().push(now));
                assert(b.times@.to_multiset() =~= Multiset::<i64>::empty().insert(now)) by {
                    broadcast use vstd::multiset::group_multiset_axioms;

                    Seq::<i64>::empty().to_multiset_ensures();
                };
                assert(buckets_ms(buckets@) =~= old_ms.insert(now)) by {
                    broadcast use vstd::multiset::group_multiset_axioms;

                };
            }
        }
        proof {
            assert(buckets_wf(buckets@));
        }
        stat.insert(id, buckets);
        std::mem::swap(&mut self.stat, &mut stat);
        proof {
            assert(self@.live =~= old(self)@.live);
            assert(self@.events =~= old(self)@.events.insert(id, old_ms.insert(now)));
            assert(self@ =~= old(self)@.record_ok(id, now));
        }
        Ok(url)
    }

    /// The number of access events of `id` in the window from
    /// `since` (or, when omitted, 24 hours before `now`) up to `now`.
    /// Fails with not-found when the id was never stored or was deleted;
    /// an id with no events in the window reports zero.
    pub fn stat_at(&self, id: u64, since: Option<i64>, now: i64) -> (r: Result<
        u64,
        BackendError,
    >)
        ensures
            match r {
                Ok(c) => self@.live.contains_key(id) && (since is Some || now - 86400
                    >= i64::MIN) && c == count_in_window(
                    self@.events[id],
                    crate::backend::window_start(since, now),
                    now as int,
                ),
                Err(e) => match e {
                    BackendError::NotFound => !self@.live.contains_key(id),
                    BackendError::DateTimeOverflow => self@.live.contains_key(id) && since is None
                        && now - 86400 < i64::MIN,
                    BackendError::Internal(_) => self@.live.contains_key(id) && count_in_window(
                        self@.events[id],
                        crate::backend::window_start(since, now),
                        now as int,
                    ) > u64::MAX,
                    _ => false,
                },
            },
    {
        proof {
            use_type_invariant(self);
        }
        if !self.storage.contains_key(&id) {
            return Err(BackendError::NotFound);
        }
        let lo: i64 = match since {
            Some(s) => s,
            None => match now.checked_sub(86400) {
                Some(v) => v,
                None => {
                    return Err(BackendError::DateTimeOverflow);
                },
            },
        };
        match self.stat.get(&id) {
            Some(buckets) => {
                match count_events(buckets, lo, now) {
                    Some(c) => Ok(c),
                    None => {
                        let m = "Stat count exceeds the counter range".to_owned();
                        Err(BackendError::Internal(m))
                    },
                }
            },
            None => {
                proof {
                    lemma_count_empty(lo as int, now as int);
                }
                Ok(0)
            },
        }
    }
}

/// The UTC day number of any timestamp, negative ones included.
fn day_number_i64(ts: i64) -> (r: i64)
    ensures
        r == day_of(ts as int),
{
    proof {
        vstd::arithmetic::div_mod::lemma_fundamental_div_mod(ts as int, 86400);
        vstd::arithmetic::div_mod::lemma_mod_bound(ts as int, 86400);
        let q = ts as int / 86400;
        let rm = ts as int % 86400;
        assert(i64::MIN <= q <= i64::MAX) by (nonlinear_arith)
            requires
                ts == 86400 * q + rm,
                0 <= rm < 86400,
                i64::MIN <= ts <= i64::MAX,
        ;
    }
    match ts.checked_div_euclid(86400) {
        Some(d) => d,
        None => {
            proof {
                assert(false);
            }
            0
        },
    }
}


/// Relies on `chrono::Utc::now`: the current UTC time, in whole
/// seconds since the epoch.
#[verifier::external_body]
fn now_timestamp() -> i64 {
    chrono::Utc::now().timestamp()
}

impl Default for InMemoryBackend {
    /// A fresh engine, as `new` gives it.
    fn default() -> (r: Self)
        ensures
            r@ == EngineModel::empty(),
    {
        InMemoryBackend::new()
    }
}

impl Backend for InMemoryBackend {
    open spec fn model(&self) -> EngineModel {
        self@
    }


    /// Allocates the next id and persists the mapping. Fails (with the
    /// internal kind) only when the id space is exhausted.
    fn store(&mut self, url: &str) -> (r: Result<u64, BackendError>)
        ensures
            match r {
                Ok(id) => old(self)@.can_store() && id == old(self)@.fresh_id() && final(self)@ == old(self)@.store_ok(url@),
                Err(e) => !old(self)@.can_store() && e is Internal && final(self)@ == old(self)@,
            },
    {
        proof {
            use_type_invariant(&*self);
        }
        if self.counter == u64::MAX {
            let m = "Identifier space exhausted".to_owned();
            return Err(BackendError::Internal(m));
        }
        self.counter = self.counter + 1;
        let id = self.counter;
        let mut storage: HashMap<u64, String> = HashMap::new();
        std::mem::swap(&mut self.storage, &mut storage);
        storage.insert(id, url.to_owned());
        std::mem::swap(&mut self.storage, &mut storage);
        proof {
            assert(self@.live =~= old(self)@.live.insert(id, url@));
            assert(self@.events =~= old(self)@.events.insert(id, Multiset::empty()));
            assert(self@ =~= old(self)@.store_ok(url@));
        }
        Ok(id)
    }

    /// Reads at the clock's current time; recording cannot fail here,
    /// so every successful read records its event.
    fn retrive(&mut self, id: u64) -> (r: Result<String, BackendError>) {
        let now = now_timestamp();
        let r = self.retrive_at(id, now);
        proof {
            if r is Ok {
                assert(self@ == old(self)@.record_ok(id, now));
            }
        }
        r
    }

    /// Queries at the clock's current time.
    fn stat(&self, id: u64, since: Option<i64>) -> (r: Result<u64, BackendError>) {
        let now = now_timestamp();
        let r = self.stat_at(id, since, now);
        proof {
            if r is Ok {
                assert(r matches Ok(c) && c == count_in_window(
                    self@.events[id],
                    window_start(since, now),
                    now as int,
                ));
            }
        }
        r
    }


    /// Replaces the destination of `id`; the id, its events and the
    /// counter are untouched. Fails with not-found when the id is not
    /// live.
    fn update(&mut self, id: u64, url: &str) -> (r: Result<(), BackendError>)
        ensures
            match r {
                Ok(_) => old(self)@.live.contains_key(id) && final(self)@ == old(self)@.update_ok(
                    id,
                    url@,
                ),
                Err(e) => e is NotFound && !old(self)@.live.contains_key(id) && final(self)@ == old(self)@,
            },
    {
        proof {
            use_type_invariant(&*self);
        }
        if !self.storage.contains_key(&id) {
            return Err(BackendError::NotFound);
        }
        let mut storage: HashMap<u64, String> = HashMap::new();
        std::mem::swap(&mut self.storage, &mut storage);
        storage.insert(id, url.to_owned());
        std::mem::swap(&mut self.storage, &mut storage);
        proof {
            assert(self@.live =~= old(self)@.live.insert(id, url@));
            assert(self@.events =~= old(self)@.events);
            assert(self@ =~= old(self)@.update_ok(id, url@));
        }
        Ok(())
    }


    /// Removes the entry and all its stat data. Fails with not-found
    /// when the id is not live: deleting twice fails the second time.
    fn delete(&mut self, id: u64) -> (r: Result<(), BackendError>)
        ensures
            match r {
                Ok(_) => old(self)@.live.contains_key(id) && final(self)@ == old(self)@.delete_ok(id),
                Err(e) => e is NotFound && !old(self)@.live.contains_key(id) && final(self)@ == old(self)@,
            },
    {
        proof {
            use_type_invariant(&*self);
        }
        let mut storage: HashMap<u64, String> = HashMap::new();
        std::mem::swap(&mut self.storage, &mut storage);
        let removed = storage.remove(&id);
        std::mem::swap(&mut self.storage, &mut storage);
        match removed {
            Some(_) => {
                let mut stat: HashMap<u64, Vec<DayBucket>> = HashMap::new();
                std::mem::swap(&mut self.stat, &mut stat);
                stat.remove(&id);
                std::mem::swap(&mut self.stat, &mut stat);
                proof {
                    assert(self@.live =~= old(self)@.live.remove(id));
                    assert(self@.events =~= old(self)@.events.remove(id));
                    assert(self@ =~= old(self)@.delete_ok(id));
                }
                Ok(())
            },
            None => {
                proof {
                    assert(self@.live =~= old(self)@.live);
                    assert(self@.events =~= old(self)@.events);
                }
                Err(BackendError::NotFound)
            },
        }
    }
}

} // verus!
