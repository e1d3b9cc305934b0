//! The networked persistent engine's decision logic: how each of the
//! five operations is turned into an atomic command against the remote
//! key/counter/sorted-set store, and how each reply is read back.
//!
//! The transport (connecting, sending scripts, awaiting replies) cannot
//! live in the verified library; it belongs to the program around it.
//! What is verified here is everything the engine decides: the key
//! schema, the member encoding, the windows, the expiry policy, and the
//! interpretation of every reply.

use vstd::prelude::*;

verus! {

use vstd::multiset::Multiset;
use crate::backend::{BackendError, window_start};
use crate::calendar::{day_of, max_representable_day, max_representable_ts, yyyymmdd_of};
use crate::calendar::{day_number, yyyymmdd_number};
use crate::digits::{dec_str, push_decimal, push_str};

/// The expiry applied to a day bucket on its first write: 48 hours.
pub const STAT_TTL_SECONDS: u64 = 172800;

/// The networked engine's native failure causes, mapped into the shared
/// taxonomy at the engine's boundary.
#[derive(Debug)]
pub enum RedisBackendError {
    /// A transport- or store-level failure, with its message.
    Client(String),
    /// The destination key was absent.
    NotFound,
}

impl RedisBackendError {
    /// The shared error kind for this native cause.
    pub fn to_backend_error(self) -> (r: BackendError)
        ensures
            self is NotFound ==> r is NotFound,
            self matches RedisBackendError::Client(m) ==> r matches BackendError::Internal(c)
                && c@ == m@,
    {
        match self {
            RedisBackendError::Client(m) => BackendError::Internal(m),
            RedisBackendError::NotFound => BackendError::NotFound,
        }
    }
}

/// The mapping key of `id`: its decimal digits.
pub open spec fn mapping_key_seq(id: u64) -> Seq<char> {
    dec_str(id as int)
}

/// The stat key of `id` for day number `day`.
pub open spec fn stat_key_seq(id: u64, day: int) -> Seq<char> {
    "stat:"@ + dec_str(id as int) + ":"@ + dec_str(yyyymmdd_of(day))
}

/// An ordered-set member for one access event: the timestamp and a
/// dedup token, so that same-timestamp events stay distinct members.
pub open spec fn member_seq(ts: int, token: Seq<char>) -> Seq<char> {
    dec_str(ts) + ":"@ + token
}

/// Relies on `uuid::Uuid::new_v4` and its hyphenated text form: a fresh
/// random dedup token, 36 characters long; nothing else is promised of
/// a random value.
#[verifier::external_body]
fn fresh_token() -> (r: String)
    ensures
        r@.len() == 36,
{
    uuid::Uuid::new_v4().to_string()
}

/// The decimal mapping key of `id`.
pub fn mapping_key(id: u64) -> (r: String)
    ensures
        r@ == mapping_key_seq(id),
{
    crate::digits::u64_to_string(id)
}

/// The stat key of `id` for day number `day`; refused past year 9999.
pub fn stat_key(id: u64, day: u64) -> (r: Option<String>)
    ensures
        match r {
            Some(s) => day < max_representable_day() && s@ == stat_key_seq(id, day as int),
            None => day >= max_representable_day(),
        },
{
    let ymd = match yyyymmdd_number(day) {
        Some(v) => v,
        None => {
            return None;
        },
    };
    let mut s = String::new();
    push_str(&mut s, "stat:");
    push_decimal(&mut s, id);
    push_str(&mut s, ":");
    push_decimal(&mut s, ymd);
    proof {
        assert(s@ =~= stat_key_seq(id, day as int));
    }
    Some(s)
}

/// One atomic store invocation: increment the shared counter, then set
/// the key named by the new counter value to the destination, returning
/// the new id. Doing both in one script is what keeps concurrent stores
/// from allocating one id twice or writing under a stale counter; the
/// atomicity itself is the remote store's.
pub struct StoreCommand {
    pub destination: String,
}

/// One atomic retrieve invocation: read the destination under
/// `mapping_key`; if it is present, add `member` with score `score` to
/// the ordered set under `stat_key` and apply `ttl_seconds` of expiry
/// only if that set has none yet. The stat side effect is skipped by
/// the store when the mapping key is absent.
pub struct RetrieveCommand {
    pub mapping_key: String,
    pub stat_key: String,
    pub score: i64,
    pub member: String,
    pub ttl_seconds: u64,
    pub ttl_only_if_unset: bool,
}

/// One windowed count invocation: report whether the destination under
/// `mapping_key` exists, and count members with score in
/// `[min_score, max_score]` in today's and yesterday's ordered sets,
/// summing the two. The existence check is what lets a never-stored id
/// fail with not-found instead of counting absent buckets as zero.
/// Scanning exactly the two buckets is enough for any window reaching
/// back at most 24 hours (`lemma_two_bucket_scan_covers`).
pub struct StatCommand {
    pub mapping_key: String,
    pub today_key: String,
    pub yesterday_key: String,
    pub min_score: i64,
    pub max_score: i64,
}

/// One conditional update invocation: set the destination under
/// `mapping_key` only if that key already exists, so an absent id is
/// reported as a no-op rather than created.
pub struct UpdateCommand {
    pub mapping_key: String,
    pub destination: String,
    pub only_if_exists: bool,
}

/// One delete invocation: remove the destination key and both possible
/// day-bucket stat keys in one operation, reporting whether the
/// destination key itself was present.
pub struct DeleteCommand {
    pub mapping_key: String,
    pub today_stat_key: String,
    pub yesterday_stat_key: String,
}

/// The networked persistent engine's command planner. The five
/// operations become commands for the remote store; the surrounding
/// program owns the connection and hands every reply back to the
/// matching `*_reply` reader.
pub struct RedisBackend {}

impl RedisBackend {
    pub fn new() -> RedisBackend {
        RedisBackend {  }
    }

    /// The command for one store: the destination is handed through to
    /// the increment-then-set script unchanged.
    pub fn store_command(&self, url: &str) -> (r: StoreCommand)
        ensures
            r.destination@ == url@,
    {
        StoreCommand { destination: url.to_owned() }
    }

    /// Reads a store reply: the remote counter's new value is the fresh
    /// id, returned as is; its uniqueness is the counter's monotonicity,
    /// delegated to the store.
    pub fn store_reply(&self, new_id: u64) -> (r: Result<u64, BackendError>)
        ensures
            r matches Ok(id) && id == new_id,
    {
        Ok(new_id)
    }

    /// The command for one retrieve of `id` at time `now`: today's stat
    /// key, the event member, and the idempotent 48-hour expiry. Fails
    /// with datetime-overflow when `now`'s day has no four-digit-year
    /// key.
    pub fn retrive_command(&self, id: u64, now: i64) -> (r: Result<RetrieveCommand, BackendError>)
        ensures
            match r {
                Ok(cmd) => {
                    &&& 0 <= now < max_representable_ts()
                    &&& cmd.mapping_key@ == mapping_key_seq(id)
                    &&& cmd.stat_key@ == stat_key_seq(id, day_of(now as int))
                    &&& cmd.score == now
                    &&& exists|tok: Seq<char>|
                        tok.len() == 36 && cmd.member@ == member_seq(now as int, tok)
                    &&& cmd.ttl_seconds == STAT_TTL_SECONDS
                    &&& cmd.ttl_only_if_unset
                },
                Err(e) => e is DateTimeOverflow && !(0 <= now < max_representable_ts()),
            },
    {
        if now < 0 {
            return Err(BackendError::DateTimeOverflow);
        }
        let day = day_number(now as u64);
        let skey = match stat_key(id, day) {
            Some(s) => s,
            None => {
                proof {
                    day_out_of_range_means_ts_out_of_range(now as int, day as int);
                }
                return Err(BackendError::DateTimeOverflow);
            },
        };
        let token = fresh_token();
        let mut member = crate::digits::u64_to_string(now as u64);
        push_str(&mut member, ":");
        push_str(&mut member, token.as_str());
        proof {
            day_in_range_means_ts_in_range(now as int, day as int);
            assert(member@ =~= member_seq(now as int, token@));
        }
        Ok(
            RetrieveCommand {
                mapping_key: mapping_key(id),
                stat_key: skey,
                score: now,
                member,
                ttl_seconds: STAT_TTL_SECONDS,
                ttl_only_if_unset: true,
            },
        )
    }

    /// Reads a retrieve reply: an absent destination is not-found; the
    /// destination itself is returned untouched.
    pub fn retrive_reply(&self, reply: Option<String>) -> (r: Result<String, BackendError>)
        ensures
            match r {
                Ok(url) => reply matches Some(u) && url == u,
                Err(e) => e is NotFound && reply is None,
            },
    {
        match reply {
            Some(url) => Ok(url),
            None => Err(BackendError::NotFound),
        }
    }

    /// The command for one stat query of `id` at time `now`: the
    /// destination key whose existence decides between not-found and a
    /// count, the two day-bucket keys that can hold events of the
    /// window, and the score range `[since, now]`, `since` defaulting to
    /// 24 hours before `now`. Fails with datetime-overflow when `now` or
    /// the day before it has no representable key.
    pub fn stat_command(&self, id: u64, since: Option<i64>, now: i64) -> (r: Result<
        StatCommand,
        BackendError,
    >)
        ensures
            match r {
                Ok(cmd) => {
                    &&& 86400 <= now < max_representable_ts()
                    &&& cmd.mapping_key@ == mapping_key_seq(id)
                    &&& cmd.today_key@ == stat_key_seq(id, day_of(now as int))
                    &&& cmd.yesterday_key@ == stat_key_seq(id, day_of(now as int) - 1)
                    &&& cmd.min_score == window_start(since, now)
                    &&& cmd.max_score == now
                },
                Err(e) => e is DateTimeOverflow && !(86400 <= now < max_representable_ts()),
            },
    {
        if now < 86400 {
            return Err(BackendError::DateTimeOverflow);
        }
        let min_score: i64 = match since {
            Some(s) => s,
            None => now - 86400,
        };
        let day = day_number(now as u64);
        let today_key = match stat_key(id, day) {
            Some(s) => s,
            None => {
                proof {
                    day_out_of_range_means_ts_out_of_range(now as int, day as int);
                }
                return Err(BackendError::DateTimeOverflow);
            },
        };
        proof {
            day_in_range_means_ts_in_range(now as int, day as int);
            assert(day >= 1) by {
                crate::calendar::lemma_day_of_ordered(86400, now as int);
            };
        }
        let yesterday_key = match stat_key(id, day - 1) {
            Some(s) => s,
            None => {
                proof {
                    assert(false);
                }
                return Err(BackendError::DateTimeOverflow);
            },
        };
        Ok(
            StatCommand {
                mapping_key: mapping_key(id),
                today_key,
                yesterday_key,
                min_score,
                max_score: now,
            },
        )
    }

    /// Reads a stat reply: an absent destination key is not-found
    /// whatever the buckets held; for a live id the two buckets' counts
    /// are summed, zero staying a zero count, and a sum beyond the
    /// counter range is an internal failure.
    pub fn stat_reply(&self, exists: bool, today: u64, yesterday: u64) -> (r: Result<
        u64,
        BackendError,
    >)
        ensures
            match r {
                Ok(c) => exists && c == today + yesterday,
                Err(e) => (e is NotFound && !exists) || (e is Internal && exists && today
                    + yesterday > u64::MAX),
            },
    {
        if !exists {
            return Err(BackendError::NotFound);
        }
        match today.checked_add(yesterday) {
            Some(c) => Ok(c),
            None => {
                let m = "Stat count exceeds the counter range".to_owned();
                Err(BackendError::Internal(m))
            },
        }
    }

    /// The command for one update of `id`: a conditional set that
    /// replaces the destination only where the key already exists.
    pub fn update_command(&self, id: u64, url: &str) -> (r: UpdateCommand)
        ensures
            r.mapping_key@ == mapping_key_seq(id),
            r.destination@ == url@,
            r.only_if_exists,
    {
        UpdateCommand {
            mapping_key: mapping_key(id),
            destination: url.to_owned(),
            only_if_exists: true,
        }
    }

    /// Reads an update reply: the conditional replace-only-if-present
    /// set reports a no-op exactly when the id was absent.
    pub fn update_reply(&self, applied: Option<()>) -> (r: Result<(), BackendError>)
        ensures
            match r {
                Ok(_) => applied is Some,
                Err(e) => e is NotFound && applied is None,
            },
    {
        match applied {
            Some(_) => Ok(()),
            None => Err(BackendError::NotFound),
        }
    }

    /// The command for one delete of `id` at time `now`: the mapping key
    /// plus both possible day-bucket stat keys, removed in one
    /// operation.
    pub fn delete_command(&self, id: u64, now: i64) -> (r: Result<DeleteCommand, BackendError>)
        ensures
            match r {
                Ok(cmd) => {
                    &&& 86400 <= now < max_representable_ts()
                    &&& cmd.mapping_key@ == mapping_key_seq(id)
                    &&& cmd.today_stat_key@ == stat_key_seq(id, day_of(now as int))
                    &&& cmd.yesterday_stat_key@ == stat_key_seq(id, day_of(now as int) - 1)
                },
                Err(e) => e is DateTimeOverflow && !(86400 <= now < max_representable_ts()),
            },
    {
        if now < 86400 {
            return Err(BackendError::DateTimeOverflow);
        }
        let day = day_number(now as u64);
        let today_stat_key = match stat_key(id, day) {
            Some(s) => s,
            None => {
                proof {
                    day_out_of_range_means_ts_out_of_range(now as int, day as int);
                }
                return Err(BackendError::DateTimeOverflow);
            },
        };
        proof {
            day_in_range_means_ts_in_range(now as int, day as int);
            assert(day >= 1) by {
                crate::calendar::lemma_day_of_ordered(86400, now as int);
            };
        }
        let yesterday_stat_key = match stat_key(id, day - 1) {
            Some(s) => s,
            None => {
                proof {
                    assert(false);
                }
                return Err(BackendError::DateTimeOverflow);
            },
        };
        Ok(DeleteCommand { mapping_key: mapping_key(id), today_stat_key, yesterday_stat_key })
    }

    /// Reads a delete reply: whether the destination key itself was
    /// removed. An absent destination is not-found regardless of whether
    /// stat keys existed, so surviving or stale stat keys never make a
    /// delete of a missing id succeed.
    pub fn delete_reply(&self, mapping_removed: bool) -> (r: Result<(), BackendError>)
        ensures
            match r {
                Ok(_) => mapping_removed,
                Err(e) => e is NotFound && !mapping_removed,
            },
    {
        if mapping_removed {
            Ok(())
        } else {
            Err(BackendError::NotFound)
        }
    }
}

/// A timestamp whose day is representable is itself below the bound.
proof fn day_in_range_means_ts_in_range(ts: int, day: int)
    requires
        0 <= ts,
        day == day_of(ts),
        day < max_representable_day(),
    ensures
        ts < max_representable_ts(),
{
    vstd::arithmetic::div_mod::lemma_fundamental_div_mod(ts, 86400);
    vstd::arithmetic::div_mod::lemma_mod_bound(ts, 86400);
    assert(ts < (day + 1) * 86400) by (nonlinear_arith)
        requires
            ts == 86400 * day + ts % 86400,
            ts % 86400 < 86400,
    ;
    assert((day + 1) * 86400 <= max_representable_day() * 86400) by (nonlinear_arith)
        requires
            day + 1 <= max_representable_day(),
    ;
}

/// A timestamp whose day is out of range is itself at or past the bound.
proof fn day_out_of_range_means_ts_out_of_range(ts: int, day: int)
    requires
        0 <= ts,
        day == day_of(ts),
        day >= max_representable_day(),
    ensures
        ts >= max_representable_ts(),
{
    vstd::arithmetic::div_mod::lemma_fundamental_div_mod(ts, 86400);
    vstd::arithmetic::div_mod::lemma_mod_bound(ts, 86400);
    assert(ts >= day * 86400) by (nonlinear_arith)
        requires
            ts == 86400 * day + ts % 86400,
            0 <= ts % 86400,
    ;
    assert(day * 86400 >= max_representable_day() * 86400) by (nonlinear_arith)
        requires
            day >= max_representable_day(),
    ;
}

/// The remote store's view of one day bucket: its ordered-set members,
/// each scored by its event timestamp, and its pending expiry time,
/// when one has been set.
pub struct BucketModel {
    pub members: Multiset<(Seq<char>, i64)>,
    pub expiry: Option<int>,
}

/// The effect of one retrieve's stat side effect on its day bucket: the
/// member is added with the event time as its score, and the 48-hour
/// expiry is set only when none is set yet (the command's
/// `ttl_only_if_unset`).
pub open spec fn apply_access(b: BucketModel, member: Seq<char>, now: i64) -> BucketModel {
    BucketModel {
        members: b.members.insert((member, now)),
        expiry: if b.expiry is None {
            Some(now + STAT_TTL_SECONDS)
        } else {
            b.expiry
        },
    }
}

/// How many of the bucket's members have a score in `[lo, hi]`: the
/// windowed count the stat command asks the store for.
pub open spec fn zcount(b: BucketModel, lo: int, hi: int) -> nat {
    b.members.filter(|p: (Seq<char>, i64)| lo <= p.1 <= hi).len()
}

/// Law: within one day bucket, only the first recorded access sets the
/// expiry; repeated retrieves on the same day never extend the bucket's
/// retention beyond 48 hours from its first write.
pub proof fn lemma_expiry_set_once(
    b: BucketModel,
    m1: Seq<char>,
    m2: Seq<char>,
    t1: i64,
    t2: i64,
)
    requires
        b.expiry is None,
    ensures
        apply_access(apply_access(b, m1, t1), m2, t2).expiry == Some(t1 + STAT_TTL_SECONDS),
{
}

/// Law: an access recorded at time `t` raises the bucket's windowed
/// count by one exactly when `t` falls in the window, whatever the
/// dedup token; counts of other windows are untouched.
pub proof fn lemma_access_counted(b: BucketModel, member: Seq<char>, t: i64, lo: int, hi: int)
    ensures
        lo <= t <= hi ==> zcount(apply_access(b, member, t), lo, hi) == zcount(b, lo, hi) + 1,
        !(lo <= t <= hi) ==> zcount(apply_access(b, member, t), lo, hi) == zcount(b, lo, hi),
{
    broadcast use vstd::multiset::group_multiset_axioms;

    let f = |p: (Seq<char>, i64)| lo <= p.1 <= hi;
    if lo <= t <= hi {
        assert(b.members.insert((member, t)).filter(f) =~= b.members.filter(f).insert(
            (member, t),
        ));
    } else {
        assert(b.members.insert((member, t)).filter(f) =~= b.members.filter(f));
    }
}

/// Law: every event timestamp inside a window reaching back at most 24
/// hours from `now` falls on `now`'s day or the day before, so the stat
/// command's two-bucket scan counts every retained event of the window.
pub proof fn lemma_two_bucket_scan_covers(since: int, now: int, t: int)
    requires
        now - 86400 <= since,
        since <= t <= now,
    ensures
        day_of(t) == day_of(now) || day_of(t) == day_of(now) - 1,
{
    crate::calendar::lemma_default_window_two_days(since, now, t);
}

} // verus!
