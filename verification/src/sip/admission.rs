//! Inbound INVITE admission control: a per-source rate limit and a global
//! concurrency cap.
//!
//! The first guard on a new INVITE, so an abusive source is shed as cheaply as
//! possible:
//!
//! - a **token bucket per source address**. A source over its rate is answered
//!   `503`; after `drop_after` consecutive rejects it is silently dropped;
//! - a **global cap** on concurrent calls.
//!
//! Buckets live in a size-capped table with idle and oldest eviction, so the limiter
//! itself cannot grow under a spoofed-source flood. Only a source that is new makes
//! room for itself: one that is tracked is held to its own bucket, however full the
//! table is.
//!
//! Time is in nanoseconds and a token is a thousand million parts, so that one
//! nanosecond at a rate of one per second adds exactly one part.
use vstd::prelude::*;

use crate::net::IpAddr;

verus! {

/// Idle sources are evicted after this long without an INVITE, in nanoseconds.
pub const IDLE_EVICT_NS: u64 = 300_000_000_000;

/// `Retry-After` (seconds) advertised on an admission `503`.
pub const ADMISSION_RETRY_AFTER_SECS: u32 = 2;

/// The parts of one token.
pub const TOKEN: u128 = 1_000_000_000;

/// What to do with a new INVITE.
#[derive(Debug, Clone, Copy, PartialEq, Eq, Structural)]
pub enum AdmissionDecision {
    /// Admit: continue to the other guards.
    Accept,
    /// Reject with `503` and `Retry-After`.
    Reject503,
    /// Drop without a response.
    Drop,
}

impl AdmissionDecision {
    /// The `result` label of the admission counter.
    pub open spec fn label(self) -> Seq<char> {
        match self {
            AdmissionDecision::Accept => "accepted"@,
            AdmissionDecision::Reject503 => "rate_limited"@,
            AdmissionDecision::Drop => "dropped"@,
        }
    }

    /// The `result` label of the admission counter.
    pub fn metric_result(&self) -> (r: &'static str)
        ensures
            r@ == self.label(),
    {
        match self {
            AdmissionDecision::Accept => "accepted",
            AdmissionDecision::Reject503 => "rate_limited",
            AdmissionDecision::Drop => "dropped",
        }
    }
}

/// One source's bucket.
#[derive(Debug, Clone, Copy, PartialEq, Eq, Structural)]
pub struct Bucket {
    pub source: IpAddr,
    /// Parts of tokens left.
    pub parts: u128,
    /// When the source was last seen, in nanoseconds.
    pub last: u64,
    /// Consecutive rejects since the last admit.
    pub rejects: u32,
}

/// The limits.
#[derive(Debug, Clone, Copy, PartialEq, Eq, Structural)]
pub struct Limits {
    /// Tokens per second; zero turns the per-source limit off.
    pub rate: u32,
    /// Tokens a bucket holds at most.
    pub capacity: u32,
    /// Consecutive rejects answered before a source is dropped.
    pub drop_after: u32,
    /// Concurrent calls at most; zero means no cap.
    pub max_concurrent: usize,
    /// Sources tracked at most.
    pub max_sources: usize,
}

/// Nanoseconds since the bucket was last used, zero for a clock gone backwards.
pub open spec fn elapsed(b: Bucket, now: u64) -> nat {
    if now >= b.last {
        (now - b.last) as nat
    } else {
        0
    }
}

/// The parts in a bucket at `now`, before a token is taken.
pub open spec fn refilled(b: Bucket, l: Limits, now: u64) -> nat {
    let full = l.capacity as nat * TOKEN as nat;
    let parts = b.parts as nat + elapsed(b, now) * l.rate as nat;
    if parts < full {
        parts
    } else {
        full
    }
}

/// A bucket never seen before: full.
pub open spec fn full_bucket(source: IpAddr, l: Limits, now: u64) -> Bucket {
    Bucket { source, parts: (l.capacity as nat * TOKEN as nat) as u128, last: now, rejects: 0 }
}

/// Whether a bucket has a whole token at `now`.
pub open spec fn has_token(b: Bucket, l: Limits, now: u64) -> bool {
    refilled(b, l, now) >= TOKEN
}

/// The bucket after one INVITE at `now`.
pub open spec fn used(b: Bucket, l: Limits, now: u64) -> Bucket {
    if has_token(b, l, now) {
        Bucket {
            parts: (refilled(b, l, now) - TOKEN) as u128,
            last: now,
            rejects: 0,
            ..b
        }
    } else {
        Bucket {
            parts: refilled(b, l, now) as u128,
            last: now,
            rejects: if b.rejects < u32::MAX {
                (b.rejects + 1) as u32
            } else {
                u32::MAX
            },
            ..b
        }
    }
}

/// The decision on one INVITE at `now`.
pub open spec fn decided(b: Bucket, l: Limits, now: u64) -> AdmissionDecision {
    if has_token(b, l, now) {
        AdmissionDecision::Accept
    } else if used(b, l, now).rejects > l.drop_after {
        AdmissionDecision::Drop
    } else {
        AdmissionDecision::Reject503
    }
}

/// Where `source` stands in the table, or the size of the table.
pub open spec fn slot(t: Seq<Bucket>, source: IpAddr) -> int
    decreases t.len(),
{
    if t.len() == 0 || t[0].source == source {
        0
    } else {
        1 + slot(t.drop_first(), source)
    }
}

/// The buckets of `t` that are not idle at `now`.
pub open spec fn awake(t: Seq<Bucket>, now: u64) -> Seq<Bucket>
    decreases t.len(),
{
    if t.len() == 0 {
        t
    } else if elapsed(t.last(), now) < IDLE_EVICT_NS {
        awake(t.drop_last(), now).push(t.last())
    } else {
        awake(t.drop_last(), now)
    }
}

/// The bucket seen the longest time ago; the first of several.
pub open spec fn oldest(t: Seq<Bucket>) -> int
    decreases t.len(),
{
    if t.len() <= 1 {
        0
    } else {
        let i = oldest(t.drop_last());
        if t.last().last < t[i].last {
            t.len() - 1
        } else {
            i
        }
    }
}

/// `t` with its oldest buckets gone until it has room below `max`, or is empty.
pub open spec fn with_room(t: Seq<Bucket>, max: nat) -> Seq<Bucket>
    decreases t.len(),
{
    if t.len() >= max && t.len() > 0 && 0 <= oldest(t) < t.len() {
        with_room(t.remove(oldest(t)), max)
    } else {
        t
    }
}

/// The table once it is bounded: untouched below the cap, and otherwise without its
/// idle buckets, then without its oldest ones.
pub open spec fn evicted(t: Seq<Bucket>, max: nat, now: u64) -> Seq<Bucket> {
    if t.len() < max {
        t
    } else {
        with_room(awake(t, now), max)
    }
}

/// The bucket a source has in `t`, a full one when it is new.
pub open spec fn bucket_of(t: Seq<Bucket>, source: IpAddr, l: Limits, now: u64) -> Bucket {
    if slot(t, source) < t.len() {
        t[slot(t, source)]
    } else {
        full_bucket(source, l, now)
    }
}

/// The table after one INVITE from `source`: its bucket is used where it stands, and
/// room is made only for a source that is new.
pub open spec fn table_after(t: Seq<Bucket>, source: IpAddr, l: Limits, now: u64) -> Seq<Bucket> {
    let b = used(bucket_of(t, source, l, now), l, now);
    if slot(t, source) < t.len() {
        t.update(slot(t, source), b)
    } else {
        evicted(t, l.max_sources as nat, now).push(b)
    }
}

/// No source has two buckets.
pub open spec fn distinct(t: Seq<Bucket>) -> bool {
    forall|i: int, j: int|
        0 <= i < j < t.len() ==> (#[trigger] t[i]).source != (#[trigger] t[j]).source
}

/// What holds of the table at all times: one bucket for each source, none over its
/// capacity, and no more of them than the cap, or than the one that was just used.
pub open spec fn table_ok(t: Seq<Bucket>, l: Limits) -> bool {
    &&& distinct(t)
    &&& forall|i: int| 0 <= i < t.len() ==> (#[trigger] t[i]).parts <= l.capacity * TOKEN
    &&& t.len() <= l.max_sources || t.len() <= 1
}

/// Inbound INVITE admission limiter.
pub struct InviteAdmission {
    limits: Limits,
    table: Vec<Bucket>,
}

impl InviteAdmission {
    pub closed spec fn limits(self) -> Limits {
        self.limits
    }

    /// The tracked buckets.
    pub closed spec fn table(self) -> Seq<Bucket> {
        self.table@
    }

    /// One bucket for each source, none over its capacity, and a bounded table.
    pub open spec fn wf(self) -> bool {
        table_ok(self.table(), self.limits())
    }

    /// The decision on an INVITE from `source` at `now` with `active` calls up.
    pub open spec fn decision(self, source: IpAddr, now: u64, active: usize) -> AdmissionDecision {
        let l = self.limits();
        if l.max_concurrent > 0 && active >= l.max_concurrent {
            AdmissionDecision::Reject503
        } else if l.rate == 0 {
            AdmissionDecision::Accept
        } else {
            decided(bucket_of(self.table(), source, l, now), l, now)
        }
    }

    /// The INVITE reaches the per-source limit.
    pub open spec fn counted(self, active: usize) -> bool {
        let l = self.limits();
        !(l.max_concurrent > 0 && active >= l.max_concurrent) && l.rate > 0
    }

    /// A limiter with an empty table. A bucket holds `burst` tokens, and never fewer
    /// than one second's worth.
    pub fn new(
        max_per_sec: u32,
        burst: u32,
        drop_after: u32,
        max_concurrent: u32,
        max_sources: u32,
    ) -> (r: Self)
        ensures
            r.wf(),
            r.table() == Seq::<Bucket>::empty(),
            r.limits() == (Limits {
                rate: max_per_sec,
                capacity: if burst >= max_per_sec {
                    burst
                } else {
                    max_per_sec
                },
                drop_after,
                max_concurrent: max_concurrent as usize,
                max_sources: max_sources as usize,
            }),
    {
        let capacity: u32 = if burst >= max_per_sec {
            burst
        } else {
            max_per_sec
        };
        InviteAdmission {
            limits: Limits {
                rate: max_per_sec,
                capacity,
                drop_after,
                max_concurrent: max_concurrent as usize,
                max_sources: max_sources as usize,
            },
            table: Vec::new(),
        }
    }

    /// Decide whether to admit a new INVITE from `source` at `now`, with `active`
    /// calls up. The global cap comes first; an INVITE it rejects costs the source
    /// nothing. A source that is tracked is judged by its own bucket, also while the
    /// table is full.
    pub fn check(&mut self, source: IpAddr, now: u64, active: usize) -> (d: AdmissionDecision)
        requires
            old(self).wf(),
        ensures
            final(self).wf(),
            final(self).limits() == old(self).limits(),
            d == old(self).decision(source, now, active),
            old(self).counted(active) && slot(old(self).table(), source) < old(self).table().len()
                ==> d == decided(
                old(self).table()[slot(old(self).table(), source)],
                old(self).limits(),
                now,
            ),
            final(self).table() == (if old(self).counted(active) {
                table_after(old(self).table(), source, old(self).limits(), now)
            } else {
                old(self).table()
            }),
    {
        let l = self.limits;
        if l.max_concurrent > 0 && active >= l.max_concurrent {
            return AdmissionDecision::Reject503;
        }
        if l.rate == 0 {
            return AdmissionDecision::Accept;
        }
        let ghost t = self.table@;
        proof {
            used_table_ok(t, source, l, now);
        }
        let i = find_slot(&self.table, source);
        if i < self.table.len() {
            let (after, d) = use_bucket(self.table[i], l, now);
            self.table.set(i, after);
            d
        } else {
            let full: u128 = l.capacity as u128 * TOKEN;
            assert(full == l.capacity as nat * TOKEN as nat);
            let (after, d) = use_bucket(
                Bucket { source, parts: full, last: now, rejects: 0 },
                l,
                now,
            );
            self.evict_if_full(now);
            self.table.push(after);
            d
        }
    }

    /// Make room in the table for a source that is new.
    fn evict_if_full(&mut self, now: u64)
        ensures
            final(self).limits == old(self).limits,
            final(self).table@ == evicted(
                old(self).table@,
                old(self).limits.max_sources as nat,
                now,
            ),
    {
        let max = self.limits.max_sources;
        if self.table.len() < max {
            return;
        }
        let ghost t0 = self.table@;
        let mut kept: Vec<Bucket> = Vec::new();
        let mut i: usize = 0;
        assert(awake(t0.subrange(0, 0), now) =~= Seq::empty());
        while i < self.table.len()
            invariant
                i <= self.table@.len(),
                self.table@ == t0,
                kept@ == awake(t0.subrange(0, i as int), now),
            decreases self.table@.len() - i,
        {
            let b = self.table[i];
            assert(t0.subrange(0, i + 1).drop_last() =~= t0.subrange(0, i as int));
            let age: u64 = if now >= b.last {
                now - b.last
            } else {
                0
            };
            if age < IDLE_EVICT_NS {
                kept.push(b);
            }
            i += 1;
        }
        assert(t0.subrange(0, i as int) =~= t0);
        let ghost a = kept@;
        while kept.len() >= max && kept.len() > 0
            invariant
                with_room(a, max as nat) == with_room(kept@, max as nat),
            decreases kept@.len(),
        {
            let j = find_oldest(&kept);
            kept.remove(j);
        }
        self.table = kept;
    }

    /// Number of sources tracked.
    pub fn source_count(&self) -> (n: usize)
        ensures
            n == self.table().len(),
    {
        self.table.len()
    }
}

fn find_slot(t: &Vec<Bucket>, source: IpAddr) -> (r: usize)
    ensures
        r == slot(t@, source),
        r <= t@.len(),
{
    let mut i: usize = 0;
    assert(t@.subrange(0, t@.len() as int) =~= t@);
    while i < t.len()
        invariant
            i <= t@.len(),
            slot(t@, source) == i + slot(t@.subrange(i as int, t@.len() as int), source),
        decreases t@.len() - i,
    {
        if t[i].source == source {
            return i;
        }
        assert(t@.subrange(i as int, t@.len() as int).drop_first() =~= t@.subrange(
            i + 1,
            t@.len() as int,
        ));
        i += 1;
    }
    i
}

fn find_oldest(t: &Vec<Bucket>) -> (r: usize)
    requires
        t@.len() > 0,
    ensures
        r == oldest(t@),
        r < t@.len(),
{
    let mut best: usize = 0;
    let mut i: usize = 1;
    assert(t@.subrange(0, 1).len() == 1);
    while i < t.len()
        invariant
            1 <= i <= t@.len(),
            best < i,
            best == oldest(t@.subrange(0, i as int)),
        decreases t@.len() - i,
    {
        let ghost upto = t@.subrange(0, i + 1);
        assert(upto.drop_last() =~= t@.subrange(0, i as int));
        assert(upto[best as int] == t@[best as int]);
        if t[i].last < t[best].last {
            best = i;
        }
        i += 1;
    }
    assert(t@.subrange(0, i as int) =~= t@);
    best
}

/// Take a token, or count a reject.
fn use_bucket(b: Bucket, l: Limits, now: u64) -> (r: (Bucket, AdmissionDecision))
    requires
        b.parts <= l.capacity * TOKEN,
    ensures
        r.0 == used(b, l, now),
        r.1 == decided(b, l, now),
        r.0.parts <= l.capacity * TOKEN,
{
    let full: u128 = l.capacity as u128 * TOKEN;
    let dt: u64 = if now >= b.last {
        now - b.last
    } else {
        0
    };
    assert(dt as nat * l.rate as nat <= u64::MAX as nat * u32::MAX as nat) by (nonlinear_arith)
        requires
            dt <= u64::MAX,
            l.rate <= u32::MAX,
    ;
    let gained: u128 = dt as u128 * l.rate as u128;
    let sum: u128 = b.parts + gained;
    let parts: u128 = if sum < full {
        sum
    } else {
        full
    };
    assert(parts == refilled(b, l, now));
    if parts >= TOKEN {
        (
            Bucket { source: b.source, parts: parts - TOKEN, last: now, rejects: 0 },
            AdmissionDecision::Accept,
        )
    } else {
        let rejects = b.rejects.saturating_add(1);
        let after = Bucket { source: b.source, parts, last: now, rejects };
        if rejects > l.drop_after {
            (after, AdmissionDecision::Drop)
        } else {
            (after, AdmissionDecision::Reject503)
        }
    }
}

// ---- Laws ----

/// How many of a run of INVITEs at the given times one bucket accepts.
pub open spec fn accepted(b: Bucket, l: Limits, times: Seq<u64>) -> nat
    decreases times.len(),
{
    if times.len() == 0 {
        0
    } else {
        accepted(used(b, l, times[0]), l, times.drop_first()) + if has_token(b, l, times[0]) {
            1nat
        } else {
            0
        }
    }
}

/// Times in order, none before `from`.
pub open spec fn ordered_from(from: u64, times: Seq<u64>) -> bool
    decreases times.len(),
{
    times.len() == 0 || (from <= times[0] && ordered_from(times[0], times.drop_first()))
}

/// The last of a run of times, `from` for none.
pub open spec fn last_time(from: u64, times: Seq<u64>) -> u64 {
    if times.len() == 0 {
        from
    } else {
        times.last()
    }
}

/// The rate limit holds over any run of INVITEs: a bucket accepts no more than what
/// it held at the start plus what the rate added since.
pub proof fn the_rate_limit_holds(b: Bucket, l: Limits, times: Seq<u64>)
    requires
        b.parts <= l.capacity * TOKEN,
        ordered_from(b.last, times),
    ensures
        accepted(b, l, times) * TOKEN <= b.parts + (last_time(b.last, times) - b.last) * l.rate,
        b.last <= last_time(b.last, times),
    decreases times.len(),
{
    if times.len() > 0 {
        let t = times[0];
        let rest = times.drop_first();
        let after = used(b, l, t);
        refilled_fits(b, l, t);
        the_rate_limit_holds(after, l, rest);
        assert(last_time(t, rest) == last_time(b.last, times)) by {
            if rest.len() > 0 {
                assert(rest.last() == times.last());
            }
        }
        let end = last_time(b.last, times);
        assert((t - b.last) * l.rate + (end - t) * l.rate == (end - b.last) * l.rate)
            by (nonlinear_arith);
        let n = accepted(after, l, rest);
        if has_token(b, l, t) {
            assert((n + 1) * TOKEN == n * TOKEN + TOKEN) by (nonlinear_arith);
        }
        assert(refilled(b, l, t) <= b.parts + (t - b.last) * l.rate);
    } else {
        assert((b.last - b.last) * l.rate == 0) by (nonlinear_arith);
    }
}

/// Times that each leave the rate long enough to add a whole token since the one
/// before, the first since `from`.
pub open spec fn within_rate(from: u64, times: Seq<u64>, rate: u32) -> bool
    decreases times.len(),
{
    times.len() == 0 || (from <= times[0] && (times[0] - from) * rate >= TOKEN && within_rate(
        times[0],
        times.drop_first(),
        rate,
    ))
}

/// A source that keeps to its rate is never rejected, and not even an empty bucket
/// costs it an INVITE.
pub proof fn a_source_within_its_rate_is_admitted(b: Bucket, l: Limits, times: Seq<u64>)
    requires
        l.capacity >= 1,
        within_rate(b.last, times, l.rate),
    ensures
        accepted(b, l, times) == times.len(),
    decreases times.len(),
{
    if times.len() > 0 {
        let t = times[0];
        refilled_fits(b, l, t);
        assert(refilled(b, l, t) >= TOKEN) by {
            assert(elapsed(b, t) * l.rate as nat == (t - b.last) * l.rate);
        }
        a_source_within_its_rate_is_admitted(used(b, l, t), l, times.drop_first());
    }
}

/// A source never seen before is admitted.
pub proof fn a_new_source_is_admitted(source: IpAddr, l: Limits, now: u64)
    requires
        l.capacity >= 1,
    ensures
        decided(full_bucket(source, l, now), l, now) == AdmissionDecision::Accept,
{
    refilled_fits(full_bucket(source, l, now), l, now);
}

proof fn refilled_fits(b: Bucket, l: Limits, now: u64)
    ensures
        0 <= refilled(b, l, now) <= l.capacity * TOKEN,
        refilled(b, l, now) <= u128::MAX,
        used(b, l, now).parts <= l.capacity * TOKEN,
        used(b, l, now).parts + (if has_token(b, l, now) {
            TOKEN as nat
        } else {
            0
        }) == refilled(b, l, now),
{
    assert(elapsed(b, now) * l.rate as nat >= 0) by (nonlinear_arith)
        requires
            elapsed(b, now) >= 0,
            l.rate >= 0,
    ;
}

/// A source is answered at least `drop_after` times before it is dropped: a drop
/// means that the rejects since its last admit are more than that.
pub proof fn a_drop_is_earned(b: Bucket, l: Limits, now: u64)
    requires
        decided(b, l, now) == AdmissionDecision::Drop,
    ensures
        b.rejects >= l.drop_after,
        !has_token(b, l, now),
{
}

/// An admitted INVITE forgives the rejects before it.
pub proof fn an_admit_resets_the_rejects(b: Bucket, l: Limits, now: u64)
    requires
        decided(b, l, now) == AdmissionDecision::Accept,
    ensures
        used(b, l, now).rejects == 0,
{
}

proof fn oldest_in_range(t: Seq<Bucket>)
    requires
        t.len() > 0,
    ensures
        0 <= oldest(t) < t.len(),
    decreases t.len(),
{
    if t.len() > 1 {
        oldest_in_range(t.drop_last());
    }
}

proof fn with_room_fits(t: Seq<Bucket>, max: nat)
    ensures
        with_room(t, max).len() < max || with_room(t, max).len() == 0,
    decreases t.len(),
{
    if t.len() >= max && t.len() > 0 {
        oldest_in_range(t);
        with_room_fits(t.remove(oldest(t)), max);
    }
}

// ---- The table ----

proof fn slot_facts(t: Seq<Bucket>, source: IpAddr)
    ensures
        0 <= slot(t, source) <= t.len(),
        slot(t, source) < t.len() ==> t[slot(t, source)].source == source,
        forall|k: int| 0 <= k < slot(t, source) ==> (#[trigger] t[k]).source != source,
    decreases t.len(),
{
    if t.len() > 0 && t[0].source != source {
        let rest = t.drop_first();
        slot_facts(rest, source);
        assert forall|k: int| 0 <= k < slot(t, source) implies (#[trigger] t[k]).source
            != source by {
            if k > 0 {
                assert(rest[k - 1] == t[k]);
            }
        }
    }
}

/// With one bucket for each source, a bucket is found where it stands.
proof fn slot_of_member(t: Seq<Bucket>, i: int)
    requires
        distinct(t),
        0 <= i < t.len(),
    ensures
        slot(t, t[i].source) == i,
{
    slot_facts(t, t[i].source);
}

/// `a` holds buckets of `t` alone, and one for each source where `t` does.
spec fn drawn_from(a: Seq<Bucket>, t: Seq<Bucket>) -> bool {
    &&& forall|k: int| 0 <= k < a.len() ==> t.contains(#[trigger] a[k])
    &&& distinct(t) ==> distinct(a)
}

proof fn awake_is_drawn(t: Seq<Bucket>, now: u64)
    ensures
        drawn_from(awake(t, now), t),
        awake(t, now).len() <= t.len(),
    decreases t.len(),
{
    if t.len() > 0 {
        let init = t.drop_last();
        let front = awake(init, now);
        let all = awake(t, now);
        awake_is_drawn(init, now);
        assert forall|k: int| 0 <= k < all.len() implies t.contains(#[trigger] all[k]) by {
            if k < front.len() {
                let i = choose|i: int| 0 <= i < init.len() && init[i] == front[k];
                assert(t[i] == all[k]);
            } else {
                assert(t[t.len() - 1] == all[k]);
            }
        }
        if distinct(t) {
            assert forall|i: int, j: int| 0 <= i < j < init.len() implies (#[trigger] init[i]).source
                != (#[trigger] init[j]).source by {
                assert(init[i] == t[i] && init[j] == t[j]);
            }
            assert forall|i: int, j: int| 0 <= i < j < all.len() implies (#[trigger] all[i]).source
                != (#[trigger] all[j]).source by {
                assert(all[i] == front[i]);
                if j == front.len() {
                    let k = choose|k: int| 0 <= k < init.len() && init[k] == front[i];
                    assert(t[k] == front[i]);
                    assert(all[j] == t[t.len() - 1]);
                } else {
                    assert(all[j] == front[j]);
                }
            }
        }
    }
}

proof fn with_room_is_drawn(t: Seq<Bucket>, max: nat)
    ensures
        drawn_from(with_room(t, max), t),
        with_room(t, max).len() <= t.len(),
    decreases t.len(),
{
    if t.len() >= max && t.len() > 0 {
        oldest_in_range(t);
        let o = oldest(t);
        let rest = t.remove(o);
        let a = with_room(rest, max);
        with_room_is_drawn(rest, max);
        assert forall|k: int| 0 <= k < rest.len() implies t.contains(#[trigger] rest[k]) by {
            assert(rest[k] == t[if k < o {
                k
            } else {
                k + 1
            }]);
        }
        assert forall|k: int| 0 <= k < a.len() implies t.contains(#[trigger] a[k]) by {
            let i = choose|i: int| 0 <= i < rest.len() && rest[i] == a[k];
            assert(t.contains(rest[i]));
        }
        if distinct(t) {
            assert forall|i: int, j: int| 0 <= i < j < rest.len() implies (#[trigger] rest[i]).source
                != (#[trigger] rest[j]).source by {
                let i2 = if i < o {
                    i
                } else {
                    i + 1
                };
                let j2 = if j < o {
                    j
                } else {
                    j + 1
                };
                assert(rest[i] == t[i2] && rest[j] == t[j2]);
            }
        }
    } else {
        assert forall|k: int| 0 <= k < t.len() implies t.contains(#[trigger] t[k]) by {}
    }
}

proof fn evicted_is_drawn(t: Seq<Bucket>, max: nat, now: u64)
    ensures
        drawn_from(evicted(t, max, now), t),
        evicted(t, max, now).len() < max || evicted(t, max, now).len() == 0,
{
    if t.len() >= max {
        let w = awake(t, now);
        let e = with_room(w, max);
        awake_is_drawn(t, now);
        with_room_is_drawn(w, max);
        with_room_fits(w, max);
        assert forall|k: int| 0 <= k < e.len() implies t.contains(#[trigger] e[k]) by {
            let i = choose|i: int| 0 <= i < w.len() && w[i] == e[k];
            assert(t.contains(w[i]));
        }
    } else {
        assert forall|k: int| 0 <= k < t.len() implies t.contains(#[trigger] t[k]) by {}
    }
}

proof fn used_table_ok(t: Seq<Bucket>, source: IpAddr, l: Limits, now: u64)
    requires
        table_ok(t, l),
    ensures
        table_ok(table_after(t, source, l, now), l),
        0 <= slot(t, source) <= t.len(),
{
    let b = bucket_of(t, source, l, now);
    let after = table_after(t, source, l, now);
    slot_facts(t, source);
    refilled_fits(b, l, now);
    let s = slot(t, source);
    if s < t.len() {
        assert forall|i: int, j: int| 0 <= i < j < after.len() implies (#[trigger] after[i]).source
            != (#[trigger] after[j]).source by {
            assert(after[i].source == t[i].source && after[j].source == t[j].source);
        }
    } else {
        let e = evicted(t, l.max_sources as nat, now);
        evicted_is_drawn(t, l.max_sources as nat, now);
        assert forall|k: int| 0 <= k < e.len() implies (#[trigger] e[k]).source != source
            && e[k].parts <= l.capacity * TOKEN by {
            let i = choose|i: int| 0 <= i < t.len() && t[i] == e[k];
            assert(t[i].source != source);
        }
        assert forall|i: int, j: int| 0 <= i < j < after.len() implies (#[trigger] after[i]).source
            != (#[trigger] after[j]).source by {
            assert(after[i] == e[i]);
            if j < e.len() {
                assert(after[j] == e[j]);
            }
        }
    }
}

/// The table is bounded whatever sources show up: it never grows past its cap.
pub proof fn the_table_is_bounded(t: Seq<Bucket>, source: IpAddr, l: Limits, now: u64)
    requires
        table_ok(t, l),
        l.max_sources >= 1,
    ensures
        table_ok(table_after(t, source, l, now), l),
        table_after(t, source, l, now).len() <= l.max_sources,
{
    used_table_ok(t, source, l, now);
}

/// While nothing has to be evicted, below the cap or for a source that is tracked, an
/// INVITE from one source touches no other source's bucket.
pub proof fn sources_are_independent(t: Seq<Bucket>, source: IpAddr, l: Limits, now: u64, i: int)
    requires
        t.len() < l.max_sources || slot(t, source) < t.len(),
        0 <= i < t.len(),
        t[i].source != source,
    ensures
        table_after(t, source, l, now)[i] == t[i],
{
    slot_facts(t, source);
}

/// An INVITE uses its own source's bucket and leaves every other bucket as it was, or
/// evicts it.
pub proof fn an_invite_uses_one_bucket(
    t: Seq<Bucket>,
    source: IpAddr,
    l: Limits,
    now: u64,
    other: IpAddr,
)
    requires
        table_ok(t, l),
    ensures
        ({
            let after = table_after(t, source, l, now);
            let own = slot(after, source);
            let s = slot(after, other);
            &&& own < after.len() && after[own] == used(bucket_of(t, source, l, now), l, now)
            &&& other != source && s < after.len() ==> slot(t, other) < t.len() && after[s]
                == t[slot(t, other)]
        }),
{
    let after = table_after(t, source, l, now);
    slot_facts(t, source);
    slot_facts(after, other);
    used_table_ok(t, source, l, now);
    let s = slot(after, other);
    if slot(t, source) < t.len() {
        slot_of_member(after, slot(t, source));
        if other != source && s < after.len() {
            assert(after[s] == t[s]);
            slot_of_member(t, s);
        }
    } else {
        let e = evicted(t, l.max_sources as nat, now);
        evicted_is_drawn(t, l.max_sources as nat, now);
        slot_of_member(after, e.len() as int);
        if other != source && s < after.len() {
            assert(after[s] == e[s]);
            let i = choose|i: int| 0 <= i < t.len() && t[i] == e[s];
            slot_of_member(t, i);
        }
    }
}

// ---- The rate, over any run of INVITEs ----

/// An INVITE: where it came from, and when.
pub type Arrival = (IpAddr, u64);

/// How many of a run of INVITEs the limiter admits from `source`.
pub open spec fn admitted(t: Seq<Bucket>, l: Limits, run: Seq<Arrival>, source: IpAddr) -> nat
    decreases run.len(),
{
    if run.len() == 0 {
        0
    } else {
        let (from, now) = run[0];
        admitted(table_after(t, from, l, now), l, run.drop_first(), source) + if from == source
            && decided(bucket_of(t, source, l, now), l, now) == AdmissionDecision::Accept {
            1nat
        } else {
            0
        }
    }
}

/// `source` has a bucket before each INVITE of the run.
pub open spec fn tracked_over(t: Seq<Bucket>, l: Limits, run: Seq<Arrival>, source: IpAddr) -> bool
    decreases run.len(),
{
    run.len() == 0 || (slot(t, source) < t.len() && tracked_over(
        table_after(t, run[0].0, l, run[0].1),
        l,
        run.drop_first(),
        source,
    ))
}

/// The INVITEs come in order, none before `from`.
pub open spec fn in_order(from: u64, run: Seq<Arrival>) -> bool
    decreases run.len(),
{
    run.len() == 0 || (from <= run[0].1 && in_order(run[0].1, run.drop_first()))
}

/// When the last INVITE came, `from` for none.
pub open spec fn end_of(from: u64, run: Seq<Arrival>) -> u64 {
    if run.len() == 0 {
        from
    } else {
        run.last().1
    }
}

/// The limiter holds every source to its rate, whoever else calls: while a source is
/// tracked it is admitted no more often than what its bucket held at the start and
/// what the rate added since allow.
pub proof fn the_limiter_holds_every_source_to_its_rate(
    t: Seq<Bucket>,
    l: Limits,
    run: Seq<Arrival>,
    source: IpAddr,
)
    requires
        table_ok(t, l),
        slot(t, source) < t.len(),
        tracked_over(t, l, run, source),
        in_order(t[slot(t, source)].last, run),
    ensures
        ({
            let b = t[slot(t, source)];
            &&& b.last <= end_of(b.last, run)
            &&& admitted(t, l, run, source) * TOKEN <= b.parts + (end_of(b.last, run) - b.last)
                * l.rate
        }),
    decreases run.len(),
{
    let b = t[slot(t, source)];
    if run.len() > 0 {
        let (from, now) = run[0];
        let rest = run.drop_first();
        let after = table_after(t, from, l, now);
        slot_facts(t, source);
        used_table_ok(t, from, l, now);
        an_invite_uses_one_bucket(t, from, l, now, source);
        let end = end_of(b.last, run);
        assert(end == end_of(now, rest)) by {
            if rest.len() > 0 {
                assert(rest.last() == run.last());
            }
        }
        let n = admitted(after, l, rest, source);
        if from == source {
            refilled_fits(b, l, now);
            the_limiter_holds_every_source_to_its_rate(after, l, rest, source);
            assert((now - b.last) * l.rate + (end - now) * l.rate == (end - b.last) * l.rate)
                by (nonlinear_arith);
            assert(refilled(b, l, now) <= b.parts + (now - b.last) * l.rate);
            if has_token(b, l, now) {
                assert((n + 1) * TOKEN == n * TOKEN + TOKEN) by (nonlinear_arith);
            }
        } else if rest.len() > 0 {
            reveal_with_fuel(tracked_over, 2);
            reveal_with_fuel(in_order, 2);
            the_limiter_holds_every_source_to_its_rate(after, l, rest, source);
            assert(end == end_of(b.last, rest));
        } else {
            assert(n == 0);
            assert(0 <= (end - b.last) * l.rate) by (nonlinear_arith)
                requires
                    b.last <= end,
                    0 <= l.rate,
            ;
        }
    } else {
        assert((b.last - b.last) * l.rate == 0) by (nonlinear_arith);
    }
}

/// A source that alone calls stays tracked, however full the table is.
proof fn alone_stays_tracked(t: Seq<Bucket>, l: Limits, run: Seq<Arrival>, source: IpAddr)
    requires
        table_ok(t, l),
        slot(t, source) < t.len(),
        forall|k: int| 0 <= k < run.len() ==> (#[trigger] run[k]).0 == source,
    ensures
        tracked_over(t, l, run, source),
    decreases run.len(),
{
    if run.len() > 0 {
        let rest = run.drop_first();
        assert(run[0].0 == source);
        used_table_ok(t, source, l, run[0].1);
        an_invite_uses_one_bucket(t, source, l, run[0].1, source);
        assert forall|k: int| 0 <= k < rest.len() implies (#[trigger] rest[k]).0 == source by {
            assert(rest[k] == run[k + 1]);
        }
        alone_stays_tracked(table_after(t, source, l, run[0].1), l, rest, source);
    }
}

/// A flood from one source is held to the rate whatever the table holds, also when it
/// is full: a source that is tracked gets what its bucket held and what the rate adds,
/// and one that is new gets one burst and what the rate adds.
pub proof fn a_flood_is_held_to_the_rate(
    t: Seq<Bucket>,
    l: Limits,
    run: Seq<Arrival>,
    source: IpAddr,
)
    requires
        table_ok(t, l),
        run.len() > 0,
        forall|k: int| 0 <= k < run.len() ==> (#[trigger] run[k]).0 == source,
        in_order(bucket_of(t, source, l, run[0].1).last, run),
    ensures
        ({
            let b = bucket_of(t, source, l, run[0].1);
            &&& b.last <= run.last().1
            &&& b.parts <= l.capacity * TOKEN
            &&& admitted(t, l, run, source) * TOKEN <= b.parts + (run.last().1 - b.last) * l.rate
        }),
{
    let now = run[0].1;
    let b = bucket_of(t, source, l, now);
    slot_facts(t, source);
    if slot(t, source) < t.len() {
        alone_stays_tracked(t, l, run, source);
        the_limiter_holds_every_source_to_its_rate(t, l, run, source);
    } else {
        let rest = run.drop_first();
        let after = table_after(t, source, l, now);
        assert(run[0].0 == source);
        used_table_ok(t, source, l, now);
        an_invite_uses_one_bucket(t, source, l, now, source);
        assert forall|k: int| 0 <= k < rest.len() implies (#[trigger] rest[k]).0 == source by {
            assert(rest[k] == run[k + 1]);
        }
        alone_stays_tracked(after, l, rest, source);
        the_limiter_holds_every_source_to_its_rate(after, l, rest, source);
        refilled_fits(b, l, now);
        let end = run.last().1;
        assert(end == end_of(now, rest)) by {
            if rest.len() > 0 {
                assert(rest.last() == run.last());
            }
        }
        assert((now - b.last) * l.rate == 0) by (nonlinear_arith)
            requires
                now == b.last,
        ;
        let n = admitted(after, l, rest, source);
        if has_token(b, l, now) {
            assert((n + 1) * TOKEN == n * TOKEN + TOKEN) by (nonlinear_arith);
        }
    }
}

// ---- What is promised of every INVITE ----

/// The decision on an INVITE, by what the limiter holds. A reached cap refuses it and
/// costs the source nothing; without a rate everything else is admitted. A source that is
/// tracked at `i` has the tokens that it had left and those that the rate added since it
/// was last seen, never more than its capacity: with a whole one it is admitted, pays one
/// and starts its rejects anew, and without one it is refused, pays nothing, and is dropped
/// once its rejects in a row, this one counted, are more than `drop_after`.
pub proof fn an_invite_is_decided_by_the_tokens_of_its_source(
    a: &mut InviteAdmission,
    source: IpAddr,
    now: u64,
    active: usize,
    d: AdmissionDecision,
    i: int,
)
    requires
        old(a).wf(),
        call_ensures(InviteAdmission::check, (a, source, now, active), d),
        0 <= i < old(a).table().len(),
        old(a).table()[i].source == source,
    ensures
        ({
            let l = old(a).limits();
            let b = old(a).table()[i];
            let c = final(a).table()[i];
            let waited: int = if now > b.last {
                now - b.last
            } else {
                0
            };
            let sum = b.parts + waited * l.rate;
            let have = if sum < l.capacity * 1_000_000_000 {
                sum
            } else {
                l.capacity * 1_000_000_000
            };
            let capped = l.max_concurrent > 0 && active >= l.max_concurrent;
            &&& final(a).limits() == l
            &&& final(a).table().len() == old(a).table().len()
            &&& c.source == source
            &&& capped ==> d == AdmissionDecision::Reject503 && c == b
            &&& !capped && l.rate == 0 ==> d == AdmissionDecision::Accept && c == b
            &&& !capped && l.rate > 0 ==> {
                &&& c.last == now
                &&& d == AdmissionDecision::Accept <==> have >= 1_000_000_000
                &&& have >= 1_000_000_000 ==> c.parts == have - 1_000_000_000 && c.rejects == 0
                &&& have < 1_000_000_000 ==> {
                    &&& c.parts == have
                    &&& c.rejects == b.rejects + 1 || c.rejects == b.rejects == u32::MAX
                    &&& d == AdmissionDecision::Drop <==> c.rejects > l.drop_after
                }
            }
        }),
{
    let l = old(a).limits();
    let t = old(a).table();
    slot_of_member(t, i);
    refilled_fits(t[i], l, now);
    let waited: nat = if now > t[i].last {
        (now - t[i].last) as nat
    } else {
        0
    };
    assert(waited == elapsed(t[i], now));
    assert(waited * l.rate as nat == waited as int * l.rate as int) by (nonlinear_arith);
}

/// An INVITE changes nothing of any other source while nobody has to make room: below the
/// cap on sources or from a source that is tracked, every other bucket stays where it is.
pub proof fn nobody_else_pays_for_an_invite(
    a: &mut InviteAdmission,
    source: IpAddr,
    now: u64,
    active: usize,
    d: AdmissionDecision,
    i: int,
    own: int,
)
    requires
        old(a).wf(),
        call_ensures(InviteAdmission::check, (a, source, now, active), d),
        0 <= i < old(a).table().len(),
        old(a).table()[i].source != source,
        old(a).table().len() < old(a).limits().max_sources || (0 <= own < old(a).table().len()
            && old(a).table()[own].source == source),
    ensures
        i < final(a).table().len(),
        final(a).table()[i] == old(a).table()[i],
{
    let t = old(a).table();
    slot_facts(t, source);
    if 0 <= own < t.len() && t[own].source == source {
        slot_of_member(t, own);
    }
    if old(a).counted(active) {
        sources_are_independent(t, source, old(a).limits(), now, i);
    }
}

/// A source that is new starts with a full bucket: it is admitted wherever a bucket holds a
/// token at all, pays one, and is tracked from then on. A reached cap, or no rate, tracks
/// nobody. The table never holds more sources than its cap.
pub proof fn a_new_source_starts_with_a_full_bucket(
    a: &mut InviteAdmission,
    source: IpAddr,
    now: u64,
    active: usize,
    d: AdmissionDecision,
)
    requires
        old(a).wf(),
        call_ensures(InviteAdmission::check, (a, source, now, active), d),
        forall|k: int| 0 <= k < old(a).table().len() ==> (#[trigger] old(a).table()[k]).source
            != source,
    ensures
        ({
            let l = old(a).limits();
            let n = final(a).table().len();
            let capped = l.max_concurrent > 0 && active >= l.max_concurrent;
            &&& capped ==> d == AdmissionDecision::Reject503
            &&& !capped && l.rate == 0 ==> d == AdmissionDecision::Accept
            &&& capped || l.rate == 0 ==> final(a).table() == old(a).table()
            &&& !capped && l.rate > 0 ==> {
                &&& n > 0
                &&& n <= l.max_sources || n == 1
                &&& final(a).table()[n - 1].source == source
                &&& final(a).table()[n - 1].last == now
                &&& l.capacity >= 1 ==> {
                    &&& d == AdmissionDecision::Accept
                    &&& final(a).table()[n - 1].parts == (l.capacity - 1) * 1_000_000_000
                    &&& final(a).table()[n - 1].rejects == 0
                }
                &&& l.capacity == 0 ==> d != AdmissionDecision::Accept
            }
        }),
{
    let l = old(a).limits();
    let t = old(a).table();
    slot_facts(t, source);
    let s = slot(t, source);
    if s < t.len() {
        assert(t[s].source != source);
    }
    refilled_fits(full_bucket(source, l, now), l, now);
    evicted_is_drawn(t, l.max_sources as nat, now);
    assert(l.capacity as nat * TOKEN as nat <= u128::MAX);
    assert(0nat * l.rate as nat == 0) by (nonlinear_arith);
}

/// Room is made for a new source alone, and from those that matter least: what leaves was
/// idle for five minutes, or was last seen no later than every source that stays; nobody
/// who was seen within five minutes leaves unless the table is full without the idle ones;
/// and once room is made, no idle source is left.
pub proof fn room_is_made_from_the_idle_and_the_oldest(
    a: &mut InviteAdmission,
    source: IpAddr,
    now: u64,
    active: usize,
    d: AdmissionDecision,
    gone: int,
    kept: int,
)
    requires
        old(a).wf(),
        call_ensures(InviteAdmission::check, (a, source, now, active), d),
        0 <= gone < old(a).table().len(),
        old(a).table()[gone].source != source,
        forall|k: int|
            0 <= k < final(a).table().len() ==> (#[trigger] final(a).table()[k]).source != old(
                a,
            ).table()[gone].source,
        0 <= kept < final(a).table().len(),
        final(a).table()[kept].source != source,
    ensures
        ({
            let g = old(a).table()[gone];
            let k = final(a).table()[kept];
            &&& old(a).table().len() >= old(a).limits().max_sources
            &&& forall|j: int|
                0 <= j < old(a).table().len() ==> (#[trigger] old(a).table()[j]).source != source
            &&& now - k.last < 300_000_000_000
            &&& now - g.last >= 300_000_000_000 || (g.last <= k.last && final(a).table().len()
                == old(a).limits().max_sources)
        }),
{
    let l = old(a).limits();
    let t = old(a).table();
    let max = l.max_sources as nat;
    slot_facts(t, source);
    let after = final(a).table();
    if !old(a).counted(active) {
        assert(after[gone] == t[gone]);
    }
    assert(after == table_after(t, source, l, now));
    if slot(t, source) < t.len() {
        assert(after[gone].source == t[gone].source);
    }
    let e = evicted(t, max, now);
    if t.len() < max {
        assert(after[gone] == t[gone]);
    }
    let w = awake(t, now);
    awake_are_awake(t, now);
    awake_is_drawn(t, now);
    with_room_is_drawn(w, max);
    with_room_is_what_is_needed(w, max);
    assert(after[kept] == e[kept]);
    let ik = choose|x: int| 0 <= x < w.len() && w[x] == e[kept];
    assert(elapsed(w[ik], now) < IDLE_EVICT_NS);
    let g = t[gone];
    assert(t[gone] == g);
    if now - g.last < 300_000_000_000 {
        assert(elapsed(g, now) < IDLE_EVICT_NS);
        assert(w.contains(g));
        assert(!e.contains(g)) by {
            if e.contains(g) {
                let q = choose|q: int| 0 <= q < e.len() && e[q] == g;
                assert(after[q] == g);
            }
        }
        if w.len() < max {
            assert(e == w);
        }
        the_oldest_leave(w, max, g, e[kept]);
    }
}

proof fn awake_are_awake(t: Seq<Bucket>, now: u64)
    ensures
        forall|k: int|
            0 <= k < awake(t, now).len() ==> elapsed(#[trigger] awake(t, now)[k], now)
                < IDLE_EVICT_NS,
        forall|k: int|
            0 <= k < t.len() && elapsed(#[trigger] t[k], now) < IDLE_EVICT_NS ==> awake(
                t,
                now,
            ).contains(t[k]),
    decreases t.len(),
{
    if t.len() > 0 {
        let init = t.drop_last();
        let front = awake(init, now);
        let all = awake(t, now);
        awake_are_awake(init, now);
        assert forall|k: int| 0 <= k < all.len() implies elapsed(#[trigger] all[k], now)
            < IDLE_EVICT_NS by {
            if k < front.len() {
                assert(all[k] == front[k]);
            }
        }
        assert forall|k: int|
            0 <= k < t.len() && elapsed(#[trigger] t[k], now) < IDLE_EVICT_NS implies all.contains(
            t[k],
        ) by {
            if k < init.len() {
                assert(init[k] == t[k]);
                let x = choose|x: int| 0 <= x < front.len() && front[x] == t[k];
                assert(all[x] == t[k]);
            } else {
                assert(all[all.len() - 1] == t[k]);
            }
        }
    }
}

proof fn with_room_is_what_is_needed(t: Seq<Bucket>, max: nat)
    ensures
        t.len() >= max && max > 0 ==> with_room(t, max).len() == max - 1,
    decreases t.len(),
{
    if t.len() >= max && t.len() > 0 {
        reveal_with_fuel(with_room, 2);
        oldest_in_range(t);
        with_room_is_what_is_needed(t.remove(oldest(t)), max);
    }
}

proof fn oldest_is_oldest(t: Seq<Bucket>, k: int)
    requires
        0 <= k < t.len(),
    ensures
        0 <= oldest(t) < t.len(),
        t[oldest(t)].last <= t[k].last,
    decreases t.len(),
{
    if t.len() > 1 {
        let init = t.drop_last();
        oldest_in_range(init);
        if k < init.len() {
            oldest_is_oldest(init, k);
            assert(init[k] == t[k]);
        }
        assert(init[oldest(init)] == t[oldest(init)]);
    }
}

proof fn the_oldest_leave(t: Seq<Bucket>, max: nat, gone: Bucket, kept: Bucket)
    requires
        t.contains(gone),
        !with_room(t, max).contains(gone),
        with_room(t, max).contains(kept),
    ensures
        gone.last <= kept.last,
        t.len() >= max,
    decreases t.len(),
{
    if t.len() >= max && t.len() > 0 {
        oldest_in_range(t);
        let o = oldest(t);
        let rest = t.remove(o);
        let a = with_room(rest, max);
        with_room_is_drawn(rest, max);
        let ak = choose|x: int| 0 <= x < a.len() && a[x] == kept;
        assert(rest.contains(a[ak]));
        let rk = choose|x: int| 0 <= x < rest.len() && rest[x] == kept;
        let tk = if rk < o {
            rk
        } else {
            rk + 1
        };
        assert(rest[rk] == t[tk]);
        oldest_is_oldest(t, tk);
        let g = choose|x: int| 0 <= x < t.len() && t[x] == gone;
        if g != o {
            let rg = if g < o {
                g
            } else {
                g - 1
            };
            assert(rest[rg] == gone);
            the_oldest_leave(rest, max, gone, kept);
        }
    } else {
        assert(with_room(t, max) == t);
    }
}

/// A limiter has the limits that it is made with, tracks nobody, and gives a burst never
/// smaller than one second's worth.
pub proof fn a_limiter_has_its_limits(
    max_per_sec: u32,
    burst: u32,
    drop_after: u32,
    max_concurrent: u32,
    max_sources: u32,
    r: InviteAdmission,
    n: usize,
)
    requires
        call_ensures(
            InviteAdmission::new,
            (max_per_sec, burst, drop_after, max_concurrent, max_sources),
            r,
        ),
        call_ensures(InviteAdmission::source_count, (&r,), n),
    ensures
        n == 0,
        r.limits().rate == max_per_sec,
        r.limits().capacity >= burst && r.limits().capacity >= max_per_sec,
        r.limits().capacity == burst || r.limits().capacity == max_per_sec,
        r.limits().drop_after == drop_after,
        r.limits().max_concurrent == max_concurrent,
        r.limits().max_sources == max_sources,
{
}

/// Each decision is counted under a label of its own.
pub proof fn each_decision_has_its_label(d: &AdmissionDecision, r: &'static str)
    requires
        call_ensures(AdmissionDecision::metric_result, (d,), r),
    ensures
        *d == AdmissionDecision::Accept <==> r@ == "accepted"@,
        *d == AdmissionDecision::Reject503 <==> r@ == "rate_limited"@,
        *d == AdmissionDecision::Drop <==> r@ == "dropped"@,
{
    reveal_strlit("accepted");
    reveal_strlit("rate_limited");
    reveal_strlit("dropped");
    assert("accepted"@.len() == 8);
    assert("rate_limited"@.len() == 12);
    assert("dropped"@.len() == 7);
}

} // verus!
