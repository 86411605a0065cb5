//! Per-call SIP ladder ring.
//!
//! Holds the recent SIP messages of each dialog, keyed by SIP `Call-ID`. Traces
//! live in three populations:
//!
//! - **completed**: a call record was emitted for them. Capped at `cap_calls`,
//!   evicted oldest-completed-first.
//! - **live**: a call exists for them. Capped at [`MAX_LIVE`], never evicted to
//!   make room for noise.
//! - **noise**: everything else (REGISTER refreshes, OPTIONS, rejected scanner
//!   INVITEs). Capped at [`MAX_PENDING`], evicted least-recently-touched.
//!
//! The traces are kept in touch order, least recently touched first, so the
//! victim of an eviction is always the first of its population.
use vstd::prelude::*;

use crate::net::{contains_ip, IpAddr};
use crate::telemetry::hep::{HepPacket, HepProtocol};
use crate::telemetry::ring::newest;
use crate::text::str_eq;

verus! {

/// Default completed-call retention.
pub const DEFAULT_CAPACITY: usize = 50;

/// Default per-call message cap.
pub const DEFAULT_MAX_MESSAGES: usize = 64;

/// Non-call traces retained.
pub const MAX_PENDING: usize = 256;

/// Live-call traces retained. Separate from [`MAX_PENDING`] so noise can never
/// evict a call in progress.
pub const MAX_LIVE: usize = 512;

/// One captured SIP message.
#[derive(Debug)]
pub struct SipMessageEntry {
    pub ts_ms: u64,
    pub direction: String,
    pub src: String,
    pub dst: String,
    pub payload: String,
}

impl Clone for SipMessageEntry {
    fn clone(&self) -> (r: Self)
        ensures
            r == *self,
    {
        SipMessageEntry {
            ts_ms: self.ts_ms,
            direction: self.direction.clone(),
            src: self.src.clone(),
            dst: self.dst.clone(),
            payload: self.payload.clone(),
        }
    }
}

struct Trace {
    id: String,
    messages: Vec<SipMessageEntry>,
    truncated: bool,
    completed: bool,
    live: bool,
}

/// The ring: its two caps, the traces in touch order, and the completed ids in
/// completion order.
pub struct SipRing {
    cap_calls: usize,
    cap_messages: usize,
    traces: Vec<Trace>,
    completed_order: Vec<String>,
}

/// One trace, as contracts see it.
#[verifier::ext_equal]
pub struct TraceView {
    pub id: Seq<char>,
    pub messages: Seq<SipMessageEntry>,
    pub truncated: bool,
    pub completed: bool,
    pub live: bool,
}

/// The ring, as contracts see it.
#[verifier::ext_equal]
pub struct RingView {
    pub cap_calls: nat,
    pub cap_messages: nat,
    pub traces: Seq<TraceView>,
    pub completed: Seq<Seq<char>>,
}

impl View for Trace {
    type V = TraceView;

    closed spec fn view(&self) -> TraceView {
        TraceView {
            id: self.id@,
            messages: self.messages@,
            truncated: self.truncated,
            completed: self.completed,
            live: self.live,
        }
    }
}

impl View for SipRing {
    type V = RingView;

    closed spec fn view(&self) -> RingView {
        RingView {
            cap_calls: self.cap_calls as nat,
            cap_messages: self.cap_messages as nat,
            traces: trace_views(self.traces@),
            completed: crate::text::views(self.completed_order@),
        }
    }
}

spec fn trace_views(v: Seq<Trace>) -> Seq<TraceView> {
    Seq::new(v.len(), |i: int| v[i]@)
}

/// Where the trace `id` stands, or the number of traces when there is none.
pub open spec fn position(ts: Seq<TraceView>, id: Seq<char>) -> int
    decreases ts.len(),
{
    if ts.len() == 0 || ts[0].id == id {
        0
    } else {
        1 + position(ts.drop_first(), id)
    }
}

/// A trace of the live (`live`) or the noise (`!live`) population.
pub open spec fn pending(t: TraceView, live: bool) -> bool {
    !t.completed && t.live == live
}

/// The size of a population.
pub open spec fn population(ts: Seq<TraceView>, live: bool) -> nat
    decreases ts.len(),
{
    if ts.len() == 0 {
        0
    } else {
        population(ts.drop_last(), live) + if pending(ts.last(), live) {
            1nat
        } else {
            0
        }
    }
}

/// The least recently touched trace of a population, or the number of traces.
pub open spec fn first_pending(ts: Seq<TraceView>, live: bool) -> int
    decreases ts.len(),
{
    if ts.len() == 0 || pending(ts[0], live) {
        0
    } else {
        1 + first_pending(ts.drop_first(), live)
    }
}

/// `ts` with the least recently touched trace of the population gone when the
/// population is over `cap`.
pub open spec fn bounded(ts: Seq<TraceView>, live: bool, cap: nat) -> Seq<TraceView> {
    if population(ts, live) > cap && first_pending(ts, live) < ts.len() {
        ts.remove(first_pending(ts, live))
    } else {
        ts
    }
}

/// `ts` with both populations within their caps.
pub open spec fn both_bounded(ts: Seq<TraceView>) -> Seq<TraceView> {
    bounded(bounded(ts, false, MAX_PENDING as nat), true, MAX_LIVE as nat)
}

/// A trace with nothing captured yet.
pub open spec fn fresh_trace(id: Seq<char>) -> TraceView {
    TraceView { id, messages: Seq::empty(), truncated: false, completed: false, live: false }
}

/// `t` with `e` captured: the oldest message goes when the cap is reached.
pub open spec fn captured(t: TraceView, e: SipMessageEntry, cap: nat) -> TraceView {
    if t.messages.len() >= cap {
        TraceView { messages: t.messages.drop_first().push(e), truncated: true, ..t }
    } else {
        TraceView { messages: t.messages.push(e), ..t }
    }
}

/// The traces after `e` was captured against `id`, before any eviction: the
/// trace, new or not, is now the most recently touched one.
pub open spec fn touched(ts: Seq<TraceView>, id: Seq<char>, e: SipMessageEntry, cap: nat) -> Seq<
    TraceView,
> {
    let i = position(ts, id);
    if i < ts.len() {
        ts.remove(i).push(captured(ts[i], e, cap))
    } else {
        ts.push(captured(fresh_trace(id), e, cap))
    }
}

/// `ts` without the trace `id`.
pub open spec fn without(ts: Seq<TraceView>, id: Seq<char>) -> Seq<TraceView> {
    if position(ts, id) < ts.len() {
        ts.remove(position(ts, id))
    } else {
        ts
    }
}

/// The traces left once the oldest completed ones beyond `cap` are gone.
pub open spec fn within_window(ts: Seq<TraceView>, completed: Seq<Seq<char>>, cap: nat) -> Seq<
    TraceView,
>
    decreases completed.len(),
{
    if completed.len() > cap {
        within_window(without(ts, completed[0]), completed.drop_first(), cap)
    } else {
        ts
    }
}

/// `t` with at most `cap` messages, the newest.
pub open spec fn shortened(t: TraceView, cap: nat) -> TraceView {
    TraceView {
        messages: newest(t.messages, cap),
        truncated: t.truncated || t.messages.len() > cap,
        ..t
    }
}

/// What [`push`] leaves.
pub open spec fn pushed(r: RingView, id: Seq<char>, e: SipMessageEntry) -> RingView {
    if r.cap_calls == 0 {
        r
    } else {
        RingView { traces: both_bounded(touched(r.traces, id, e, r.cap_messages)), ..r }
    }
}

/// What [`mark_live`] leaves.
pub open spec fn marked_live(r: RingView, id: Seq<char>) -> RingView {
    let i = position(r.traces, id);
    if r.cap_calls == 0 {
        r
    } else if i < r.traces.len() {
        RingView {
            traces: both_bounded(
                r.traces.update(i, TraceView { live: true, ..r.traces[i] }),
            ),
            ..r
        }
    } else {
        RingView { traces: both_bounded(r.traces), ..r }
    }
}

/// What [`complete`] leaves.
pub open spec fn completed(r: RingView, id: Seq<char>) -> RingView {
    let i = position(r.traces, id);
    if r.cap_calls == 0 || i >= r.traces.len() || r.traces[i].completed {
        r
    } else {
        let ts = r.traces.update(
            i,
            TraceView { completed: true, live: false, ..r.traces[i] },
        );
        let order = r.completed.push(id);
        RingView {
            traces: within_window(ts, order, r.cap_calls),
            completed: newest(order, r.cap_calls),
            ..r
        }
    }
}

/// What [`set_capacity`] leaves.
pub open spec fn resized(r: RingView, cap_calls: nat, cap_messages: nat) -> RingView {
    let cap = if cap_messages == 0 {
        1
    } else {
        cap_messages
    };
    if cap_calls == 0 {
        RingView { cap_calls, cap_messages: cap, traces: Seq::empty(), completed: Seq::empty() }
    } else {
        let ts = within_window(r.traces, r.completed, cap_calls);
        RingView {
            cap_calls,
            cap_messages: cap,
            traces: Seq::new(ts.len(), |i: int| shortened(ts[i], cap)),
            completed: newest(r.completed, cap_calls),
        }
    }
}

/// No two traces share an id.
pub open spec fn ids_unique(ts: Seq<TraceView>) -> bool {
    forall|i: int, j: int| 0 <= i < j < ts.len() ==> ts[i].id != ts[j].id
}

/// The completed ids are exactly the completed traces, each once.
pub open spec fn window_matches(ts: Seq<TraceView>, completed: Seq<Seq<char>>) -> bool {
    &&& completed.no_duplicates()
    &&& forall|k: int| #![trigger completed[k]] 0 <= k < completed.len() ==> {
        let i = position(ts, completed[k]);
        i < ts.len() && ts[i].completed
    }
    &&& forall|i: int| 0 <= i < ts.len() && (#[trigger] ts[i]).completed ==> completed.contains(
        ts[i].id,
    )
}

impl RingView {
    /// The ring's invariant: unique ids, every bound respected, and nothing held
    /// while capture is off.
    pub open spec fn wf(self) -> bool {
        &&& ids_unique(self.traces)
        &&& window_matches(self.traces, self.completed)
        &&& self.cap_messages >= 1
        &&& forall|i: int|
            0 <= i < self.traces.len() ==> (#[trigger] self.traces[i]).messages.len()
                <= self.cap_messages
        &&& self.completed.len() <= self.cap_calls
        &&& population(self.traces, false) <= MAX_PENDING
        &&& population(self.traces, true) <= MAX_LIVE
        &&& self.cap_calls == 0 ==> self.traces.len() == 0
    }

    /// Whether a trace is held for `id`.
    pub open spec fn holds(self, id: Seq<char>) -> bool {
        position(self.traces, id) < self.traces.len()
    }

    /// The trace held for `id`.
    pub open spec fn trace(self, id: Seq<char>) -> TraceView {
        self.traces[position(self.traces, id)]
    }
}

// ---- Facts about positions and populations ----

proof fn position_facts(ts: Seq<TraceView>, id: Seq<char>)
    ensures
        0 <= position(ts, id) <= ts.len(),
        position(ts, id) < ts.len() ==> ts[position(ts, id)].id == id,
        forall|i: int| 0 <= i < position(ts, id) ==> (#[trigger] ts[i]).id != id,
    decreases ts.len(),
{
    if ts.len() == 0 || ts[0].id == id {
    } else {
        let rest = ts.drop_first();
        position_facts(rest, id);
        assert forall|i: int| 0 <= i < position(ts, id) implies (#[trigger] ts[i]).id != id by {
            if i > 0 {
                assert(rest[i - 1] == ts[i]);
            }
        }
    }
}

/// With unique ids, a trace is found where it stands.
proof fn position_of_member(ts: Seq<TraceView>, i: int)
    requires
        ids_unique(ts),
        0 <= i < ts.len(),
    ensures
        position(ts, ts[i].id) == i,
{
    position_facts(ts, ts[i].id);
}

proof fn first_pending_facts(ts: Seq<TraceView>, live: bool)
    ensures
        0 <= first_pending(ts, live) <= ts.len(),
        first_pending(ts, live) < ts.len() ==> pending(ts[first_pending(ts, live)], live),
        forall|i: int| 0 <= i < first_pending(ts, live) ==> !pending(#[trigger] ts[i], live),
    decreases ts.len(),
{
    if ts.len() == 0 || pending(ts[0], live) {
    } else {
        let rest = ts.drop_first();
        first_pending_facts(rest, live);
        assert forall|i: int| 0 <= i < first_pending(ts, live) implies !pending(
            #[trigger] ts[i],
            live,
        ) by {
            if i > 0 {
                assert(rest[i - 1] == ts[i]);
            }
        }
    }
}

proof fn population_none(ts: Seq<TraceView>, live: bool)
    requires
        forall|i: int| 0 <= i < ts.len() ==> !pending(#[trigger] ts[i], live),
    ensures
        population(ts, live) == 0,
    decreases ts.len(),
{
    if ts.len() > 0 {
        let front = ts.drop_last();
        assert forall|i: int| 0 <= i < front.len() implies !pending(#[trigger] front[i], live) by {
            assert(front[i] == ts[i]);
        }
        population_none(front, live);
        assert(ts.last() == ts[ts.len() - 1]);
    }
}

/// A population over zero has a first member.
proof fn population_has_first(ts: Seq<TraceView>, live: bool)
    requires
        population(ts, live) > 0,
    ensures
        first_pending(ts, live) < ts.len(),
{
    first_pending_facts(ts, live);
    if first_pending(ts, live) == ts.len() {
        population_none(ts, live);
    }
}

proof fn population_push(ts: Seq<TraceView>, t: TraceView, live: bool)
    ensures
        population(ts.push(t), live) == population(ts, live) + if pending(t, live) {
            1nat
        } else {
            0
        },
{
    assert(ts.push(t).drop_last() =~= ts);
}

proof fn population_remove(ts: Seq<TraceView>, i: int, live: bool)
    requires
        0 <= i < ts.len(),
    ensures
        population(ts, live) == population(ts.remove(i), live) + if pending(ts[i], live) {
            1nat
        } else {
            0
        },
    decreases ts.len(),
{
    if i == ts.len() - 1 {
        assert(ts.remove(i) =~= ts.drop_last());
    } else {
        population_remove(ts.drop_last(), i, live);
        assert(ts.remove(i).drop_last() =~= ts.drop_last().remove(i));
        assert(ts.remove(i).last() == ts.last());
    }
}

proof fn population_update(ts: Seq<TraceView>, i: int, t: TraceView, live: bool)
    requires
        0 <= i < ts.len(),
    ensures
        population(ts.update(i, t), live) + (if pending(ts[i], live) {
            1nat
        } else {
            0
        }) == population(ts, live) + (if pending(t, live) {
            1nat
        } else {
            0
        }),
    decreases ts.len(),
{
    if i == ts.len() - 1 {
        assert(ts.update(i, t).drop_last() =~= ts.drop_last());
    } else {
        population_update(ts.drop_last(), i, t, live);
        assert(ts.update(i, t).drop_last() =~= ts.drop_last().update(i, t));
        assert(ts.update(i, t).last() == ts.last());
    }
}

/// Traces that agree in id, completion and liveness have the same populations.
proof fn population_congruent(a: Seq<TraceView>, b: Seq<TraceView>, live: bool)
    requires
        a.len() == b.len(),
        forall|i: int|
            #![trigger a[i]]
            #![trigger b[i]]
            0 <= i < a.len() ==> a[i].completed == b[i].completed && a[i].live == b[i].live,
    ensures
        population(a, live) == population(b, live),
    decreases a.len(),
{
    if a.len() > 0 {
        population_congruent(a.drop_last(), b.drop_last(), live);
        assert(a.last() == a[a.len() - 1]);
        assert(b.last() == b[b.len() - 1]);
    }
}

/// Traces that agree in id stand at the same positions.
proof fn position_congruent(a: Seq<TraceView>, b: Seq<TraceView>, id: Seq<char>)
    requires
        a.len() == b.len(),
        forall|i: int| #![trigger a[i]] #![trigger b[i]] 0 <= i < a.len() ==> a[i].id == b[i].id,
    ensures
        position(a, id) == position(b, id),
    decreases a.len(),
{
    if a.len() > 0 {
        assert(a[0].id == b[0].id);
        position_congruent(a.drop_first(), b.drop_first(), id);
    }
}

/// Removing one trace leaves every other id findable, and that one not.
proof fn position_after_remove(ts: Seq<TraceView>, i: int, id: Seq<char>)
    requires
        ids_unique(ts),
        0 <= i < ts.len(),
    ensures
        ids_unique(ts.remove(i)),
        id == ts[i].id ==> position(ts.remove(i), id) == ts.remove(i).len(),
        id != ts[i].id ==> {
            let p = position(ts, id);
            let q = position(ts.remove(i), id);
            (p < ts.len() <==> q < ts.remove(i).len()) && (p < ts.len() ==> ts.remove(i)[q]
                == ts[p])
        },
{
    let rest = ts.remove(i);
    assert forall|a: int, b: int| 0 <= a < b < rest.len() implies rest[a].id != rest[b].id by {
        let a2 = if a < i {
            a
        } else {
            a + 1
        };
        let b2 = if b < i {
            b
        } else {
            b + 1
        };
        assert(rest[a] == ts[a2] && rest[b] == ts[b2]);
    }
    position_facts(ts, id);
    position_facts(rest, id);
    let p = position(ts, id);
    let q = position(rest, id);
    if id == ts[i].id {
        if q < rest.len() {
            let q2 = if q < i {
                q
            } else {
                q + 1
            };
            assert(rest[q] == ts[q2]);
            assert(false);
        }
    } else {
        if p < ts.len() {
            let p2 = if p < i {
                p
            } else {
                p - 1
            };
            assert(rest[p2] == ts[p]);
            position_of_member(rest, p2);
        }
        if q < rest.len() {
            let q2 = if q < i {
                q
            } else {
                q + 1
            };
            assert(rest[q] == ts[q2]);
        }
    }
}

/// Appending a trace under a new id changes no other position.
proof fn position_after_push(ts: Seq<TraceView>, t: TraceView, id: Seq<char>)
    requires
        ids_unique(ts),
        position(ts, t.id) == ts.len(),
    ensures
        ids_unique(ts.push(t)),
        id == t.id ==> position(ts.push(t), id) == ts.len(),
        id != t.id ==> {
            let p = position(ts, id);
            let q = position(ts.push(t), id);
            (p < ts.len() <==> q < ts.push(t).len()) && (p < ts.len() ==> q == p)
        },
{
    let all = ts.push(t);
    position_facts(ts, t.id);
    assert forall|a: int, b: int| 0 <= a < b < all.len() implies all[a].id != all[b].id by {
        assert(all[a] == ts[a]);
        if b < ts.len() {
            assert(all[b] == ts[b]);
        }
    }
    position_facts(ts, id);
    position_facts(all, id);
    if id == t.id {
        assert(all[ts.len() as int].id == id);
        position_of_member(all, ts.len() as int);
    } else {
        let p = position(ts, id);
        if p < ts.len() {
            assert(all[p] == ts[p]);
            position_of_member(all, p);
        } else {
            let q = position(all, id);
            if q < all.len() {
                if q < ts.len() {
                    assert(all[q] == ts[q]);
                }
            }
        }
    }
}

// ---- Preservation of the invariant ----

/// What eviction needs of the ring before the caps are enforced.
spec fn sound(ts: Seq<TraceView>, completed: Seq<Seq<char>>, cap: nat) -> bool {
    &&& ids_unique(ts)
    &&& window_matches(ts, completed)
    &&& forall|i: int| 0 <= i < ts.len() ==> (#[trigger] ts[i]).messages.len() <= cap
}

/// Removing a pending trace keeps the window.
proof fn remove_pending(ts: Seq<TraceView>, completed: Seq<Seq<char>>, cap: nat, i: int)
    requires
        sound(ts, completed, cap),
        0 <= i < ts.len(),
        !ts[i].completed,
    ensures
        sound(ts.remove(i), completed, cap),
{
    let rest = ts.remove(i);
    position_after_remove(ts, i, ts[i].id);
    assert forall|k: int| #![trigger completed[k]] 0 <= k < completed.len() implies {
        let q = position(rest, completed[k]);
        q < rest.len() && rest[q].completed
    } by {
        position_facts(ts, completed[k]);
        position_of_member(ts, i);
        position_after_remove(ts, i, completed[k]);
    }
    assert forall|j: int| 0 <= j < rest.len() && (#[trigger] rest[j]).completed implies completed.contains(rest[j].id) by {
        let j2 = if j < i {
            j
        } else {
            j + 1
        };
        assert(rest[j] == ts[j2]);
    }
    assert forall|j: int| 0 <= j < rest.len() implies (#[trigger] rest[j]).messages.len() <= cap by {
        let j2 = if j < i {
            j
        } else {
            j + 1
        };
        assert(rest[j] == ts[j2]);
    }
}

/// Enforcing a cap on a population at most one over it.
proof fn bounded_facts(
    ts: Seq<TraceView>,
    completed: Seq<Seq<char>>,
    cap_messages: nat,
    live: bool,
    cap: nat,
)
    requires
        sound(ts, completed, cap_messages),
        population(ts, live) <= cap + 1,
    ensures
        sound(bounded(ts, live, cap), completed, cap_messages),
        population(bounded(ts, live, cap), live) <= cap,
        population(bounded(ts, live, cap), !live) == population(ts, !live),
{
    if population(ts, live) > cap {
        population_has_first(ts, live);
        let i = first_pending(ts, live);
        first_pending_facts(ts, live);
        population_remove(ts, i, live);
        population_remove(ts, i, !live);
        remove_pending(ts, completed, cap_messages, i);
    }
}

proof fn both_bounded_facts(ts: Seq<TraceView>, completed: Seq<Seq<char>>, cap_messages: nat)
    requires
        sound(ts, completed, cap_messages),
        population(ts, false) <= MAX_PENDING + 1,
        population(ts, true) <= MAX_LIVE + 1,
    ensures
        sound(both_bounded(ts), completed, cap_messages),
        population(both_bounded(ts), false) <= MAX_PENDING,
        population(both_bounded(ts), true) <= MAX_LIVE,
{
    bounded_facts(ts, completed, cap_messages, false, MAX_PENDING as nat);
    let t1 = bounded(ts, false, MAX_PENDING as nat);
    bounded_facts(t1, completed, cap_messages, true, MAX_LIVE as nat);
}

/// Capturing a message keeps the window and grows the noise by at most one.
proof fn touched_facts(
    ts: Seq<TraceView>,
    completed: Seq<Seq<char>>,
    cap: nat,
    id: Seq<char>,
    e: SipMessageEntry,
)
    requires
        sound(ts, completed, cap),
        cap >= 1,
    ensures
        sound(touched(ts, id, e, cap), completed, cap),
        population(touched(ts, id, e, cap), false) <= population(ts, false) + 1,
        population(touched(ts, id, e, cap), true) == population(ts, true),
{
    position_facts(ts, id);
    let i = position(ts, id);
    let base = if i < ts.len() {
        ts.remove(i)
    } else {
        ts
    };
    let t = if i < ts.len() {
        captured(ts[i], e, cap)
    } else {
        captured(fresh_trace(id), e, cap)
    };
    if i < ts.len() {
        position_after_remove(ts, i, id);
        population_remove(ts, i, false);
        population_remove(ts, i, true);
    }
    population_push(base, t, false);
    population_push(base, t, true);
    let all = touched(ts, id, e, cap);
    assert(all == base.push(t));
    position_after_push(base, t, id);
    assert forall|k: int| #![trigger completed[k]] 0 <= k < completed.len() implies {
        let q = position(all, completed[k]);
        q < all.len() && all[q].completed
    } by {
        let p = position(ts, completed[k]);
        assert(p < ts.len() && ts[p].completed);
        position_facts(ts, completed[k]);
        if i < ts.len() {
            position_after_remove(ts, i, completed[k]);
        }
        position_after_push(base, t, completed[k]);
        position_facts(base, completed[k]);
        if completed[k] == id {
            assert(p == i);
            assert(all[base.len() as int] == t);
        } else {
            let q = position(base, completed[k]);
            assert(q < base.len());
            assert(all[q] == base[q]);
        }
    }
    assert forall|j: int| 0 <= j < all.len() && (#[trigger] all[j]).completed implies completed.contains(all[j].id) by {
        if j == base.len() {
            assert(i < ts.len());
            assert(ts[i].completed);
        } else {
            let j2 = if i < ts.len() && j >= i {
                j + 1
            } else {
                j
            };
            assert(all[j] == ts[j2]);
        }
    }
    assert forall|j: int| 0 <= j < all.len() implies (#[trigger] all[j]).messages.len() <= cap by {
        if j == base.len() {
            if i < ts.len() {
                assert(ts[i].messages.len() <= cap);
            }
        } else {
            let j2 = if i < ts.len() && j >= i {
                j + 1
            } else {
                j
            };
            assert(all[j] == ts[j2]);
        }
    }
}

/// Changing flags of a pending trace in place, without completing it.
proof fn relabel_facts(ts: Seq<TraceView>, completed: Seq<Seq<char>>, cap: nat, i: int, t: TraceView)
    requires
        sound(ts, completed, cap),
        0 <= i < ts.len(),
        t == (TraceView { live: t.live, ..ts[i] }),
    ensures
        sound(ts.update(i, t), completed, cap),
{
    let all = ts.update(i, t);
    assert forall|k: int| #![trigger completed[k]] 0 <= k < completed.len() implies {
        let q = position(all, completed[k]);
        q < all.len() && all[q].completed
    } by {
        position_congruent(ts, all, completed[k]);
        position_facts(ts, completed[k]);
    }
    assert forall|j: int| 0 <= j < all.len() && (#[trigger] all[j]).completed implies completed.contains(all[j].id) by {
        assert(ts[j].completed);
    }
    assert forall|j: int| 0 <= j < all.len() implies (#[trigger] all[j]).messages.len() <= cap by {
        assert(ts[j].messages.len() <= cap);
    }
}

/// Completing a pending trace appends it to the window.
proof fn complete_facts(ts: Seq<TraceView>, completed: Seq<Seq<char>>, cap: nat, i: int)
    requires
        sound(ts, completed, cap),
        0 <= i < ts.len(),
        !ts[i].completed,
    ensures
        ({
            let all = ts.update(i, TraceView { completed: true, live: false, ..ts[i] });
            &&& sound(all, completed.push(ts[i].id), cap)
            &&& population(all, false) <= population(ts, false)
            &&& population(all, true) <= population(ts, true)
        }),
{
    let t = TraceView { completed: true, live: false, ..ts[i] };
    let all = ts.update(i, t);
    let order = completed.push(ts[i].id);
    population_update(ts, i, t, false);
    population_update(ts, i, t, true);
    position_of_member(ts, i);
    assert forall|k: int| #![trigger order[k]] 0 <= k < order.len() implies {
        let q = position(all, order[k]);
        q < all.len() && all[q].completed
    } by {
        position_congruent(ts, all, order[k]);
        position_facts(ts, order[k]);
        if k < completed.len() {
            assert(order[k] == completed[k]);
        }
    }
    assert(order.no_duplicates()) by {
        assert forall|a: int, b: int| 0 <= a < order.len() && 0 <= b < order.len() && a != b implies order[a] != order[b] by {
            if a < completed.len() {
                assert(order[a] == completed[a]);
                let p = position(ts, completed[a]);
                assert(ts[p].completed);
                position_facts(ts, completed[a]);
            }
            if b < completed.len() {
                assert(order[b] == completed[b]);
                let p = position(ts, completed[b]);
                assert(ts[p].completed);
                position_facts(ts, completed[b]);
            }
        }
    }
    assert forall|j: int| 0 <= j < all.len() && (#[trigger] all[j]).completed implies order.contains(all[j].id) by {
        if j == i {
            assert(order[completed.len() as int] == ts[i].id);
        } else {
            assert(ts[j].completed);
            let k = choose|k: int| 0 <= k < completed.len() && completed[k] == ts[j].id;
            assert(order[k] == ts[j].id);
        }
    }
    assert forall|j: int| 0 <= j < all.len() implies (#[trigger] all[j]).messages.len() <= cap by {
        assert(ts[j].messages.len() <= cap);
    }
}

/// Taking the oldest completed trace out of the window.
proof fn drop_oldest_facts(ts: Seq<TraceView>, completed: Seq<Seq<char>>, cap: nat)
    requires
        sound(ts, completed, cap),
        completed.len() > 0,
    ensures
        sound(without(ts, completed[0]), completed.drop_first(), cap),
        population(without(ts, completed[0]), false) == population(ts, false),
        population(without(ts, completed[0]), true) == population(ts, true),
{
    let id = completed[0];
    let i = position(ts, id);
    assert(i < ts.len() && ts[i].completed);
    position_facts(ts, id);
    let rest = ts.remove(i);
    let order = completed.drop_first();
    population_remove(ts, i, false);
    population_remove(ts, i, true);
    position_after_remove(ts, i, id);
    assert forall|k: int| #![trigger order[k]] 0 <= k < order.len() implies {
        let q = position(rest, order[k]);
        q < rest.len() && rest[q].completed
    } by {
        assert(order[k] == completed[k + 1]);
        assert(order[k] != id);
        position_after_remove(ts, i, order[k]);
    }
    assert(order.no_duplicates()) by {
        assert forall|a: int, b: int| 0 <= a < order.len() && 0 <= b < order.len() && a != b implies order[a] != order[b] by {
            assert(order[a] == completed[a + 1] && order[b] == completed[b + 1]);
        }
    }
    assert forall|j: int| 0 <= j < rest.len() && (#[trigger] rest[j]).completed implies order.contains(rest[j].id) by {
        let j2 = if j < i {
            j
        } else {
            j + 1
        };
        assert(rest[j] == ts[j2]);
        let k = choose|k: int| 0 <= k < completed.len() && completed[k] == ts[j2].id;
        assert(k != 0);
        assert(order[k - 1] == ts[j2].id);
    }
    assert forall|j: int| 0 <= j < rest.len() implies (#[trigger] rest[j]).messages.len() <= cap by {
        let j2 = if j < i {
            j
        } else {
            j + 1
        };
        assert(rest[j] == ts[j2]);
    }
}

proof fn within_window_facts(
    ts: Seq<TraceView>,
    completed: Seq<Seq<char>>,
    cap_messages: nat,
    cap: nat,
)
    requires
        sound(ts, completed, cap_messages),
    ensures
        sound(within_window(ts, completed, cap), newest(completed, cap), cap_messages),
        population(within_window(ts, completed, cap), false) == population(ts, false),
        population(within_window(ts, completed, cap), true) == population(ts, true),
    decreases completed.len(),
{
    if completed.len() > cap {
        drop_oldest_facts(ts, completed, cap_messages);
        within_window_facts(without(ts, completed[0]), completed.drop_first(), cap_messages, cap);
        assert(newest(completed.drop_first(), cap) =~= newest(completed, cap));
    }
}

/// Shortening every trace keeps the window and the populations.
proof fn shortened_facts(ts: Seq<TraceView>, completed: Seq<Seq<char>>, old_cap: nat, cap: nat)
    requires
        sound(ts, completed, old_cap),
    ensures
        ({
            let all = Seq::new(ts.len(), |i: int| shortened(ts[i], cap));
            &&& sound(all, completed, cap)
            &&& population(all, false) == population(ts, false)
            &&& population(all, true) == population(ts, true)
        }),
{
    let all = Seq::new(ts.len(), |i: int| shortened(ts[i], cap));
    population_congruent(ts, all, false);
    population_congruent(ts, all, true);
    assert forall|k: int| #![trigger completed[k]] 0 <= k < completed.len() implies {
        let q = position(all, completed[k]);
        q < all.len() && all[q].completed
    } by {
        position_congruent(ts, all, completed[k]);
        position_facts(ts, completed[k]);
    }
    assert forall|j: int| 0 <= j < all.len() && (#[trigger] all[j]).completed implies completed.contains(all[j].id) by {
        assert(ts[j].completed);
    }
    assert forall|j: int| 0 <= j < all.len() implies (#[trigger] all[j]).messages.len() <= cap by {
        assert(all[j] == shortened(ts[j], cap));
    }
    assert forall|a: int, b: int| 0 <= a < b < all.len() implies all[a].id != all[b].id by {
        assert(ts[a].id != ts[b].id);
    }
}

// ---- Operations ----

/// What one capture did, for the counters.
#[derive(Debug, Clone, Copy, PartialEq, Eq)]
pub struct PushReport {
    /// The message was captured (capture is on).
    pub captured: bool,
    /// The per-call cap dropped the oldest message of the same trace.
    pub dropped_call_cap: bool,
    /// Whole traces dropped by the population caps.
    pub dropped_trace_cap: usize,
    /// Traces held afterwards.
    pub traces: usize,
}

/// The `result` labels of the message counter, each with what it grows by.
pub open spec fn label_views(v: Seq<(&'static str, u64)>) -> Seq<(Seq<char>, u64)> {
    Seq::new(v.len(), |i: int| (v[i].0@, v[i].1))
}

/// What the message counter grows by for `dropped` traces gone by the population caps.
pub open spec fn eviction_growth(dropped: usize) -> Seq<(Seq<char>, u64)> {
    if dropped > 0 {
        seq![("dropped_trace_cap"@, dropped as u64)]
    } else {
        Seq::empty()
    }
}

/// What the message counter grows by for `dropped` traces gone by the population caps,
/// each amount with its `result` label.
pub fn eviction_counts(dropped: usize) -> (r: Vec<(&'static str, u64)>)
    ensures
        label_views(r@) == eviction_growth(dropped),
{
    let mut r: Vec<(&'static str, u64)> = Vec::new();
    if dropped > 0 {
        r.push(("dropped_trace_cap", dropped as u64));
    }
    assert(label_views(r@) =~= eviction_growth(dropped));
    r
}

impl PushReport {
    /// What the message counter grows by.
    pub open spec fn growth(self) -> Seq<(Seq<char>, u64)> {
        (if self.dropped_call_cap {
            seq![("dropped_call_cap"@, 1u64)]
        } else {
            Seq::empty()
        }) + (if self.captured {
            seq![("captured"@, 1u64)]
        } else {
            Seq::empty()
        }) + eviction_growth(self.dropped_trace_cap)
    }

    /// What the message counter grows by, each amount with its `result` label.
    pub fn counts(&self) -> (r: Vec<(&'static str, u64)>)
        ensures
            label_views(r@) == self.growth(),
    {
        let mut r: Vec<(&'static str, u64)> = Vec::new();
        if self.dropped_call_cap {
            r.push(("dropped_call_cap", 1));
        }
        if self.captured {
            r.push(("captured", 1));
        }
        let ghost first = r@;
        let mut evicted = eviction_counts(self.dropped_trace_cap);
        let ghost last = evicted@;
        r.append(&mut evicted);
        assert(label_views(r@) =~= label_views(first) + label_views(last));
        assert(label_views(r@) =~= self.growth());
        r
    }
}

/// The index of the trace `id`, or the number of traces.
fn find(traces: &Vec<Trace>, id: &str) -> (r: usize)
    ensures
        r == position(trace_views(traces@), id@),
        r <= traces@.len(),
{
    let mut i: usize = 0;
    let ghost all = trace_views(traces@);
    assert(all.subrange(0, all.len() as int) =~= all);
    while i < traces.len()
        invariant
            i <= traces@.len(),
            all == trace_views(traces@),
            position(all, id@) == i + position(all.subrange(i as int, all.len() as int), id@),
        decreases traces@.len() - i,
    {
        let ghost rest = all.subrange(i as int, all.len() as int);
        assert(rest[0] == traces@[i as int]@);
        if str_eq(traces[i].id.as_str(), id) {
            return i;
        }
        assert(rest.drop_first() =~= all.subrange(i + 1, all.len() as int));
        i += 1;
    }
    i
}

/// The index of the least recently touched trace of a population.
fn find_pending(traces: &Vec<Trace>, live: bool) -> (r: usize)
    ensures
        r == first_pending(trace_views(traces@), live),
        r <= traces@.len(),
{
    let mut i: usize = 0;
    let ghost all = trace_views(traces@);
    assert(all.subrange(0, all.len() as int) =~= all);
    while i < traces.len()
        invariant
            i <= traces@.len(),
            all == trace_views(traces@),
            first_pending(all, live) == i + first_pending(
                all.subrange(i as int, all.len() as int),
                live,
            ),
        decreases traces@.len() - i,
    {
        let ghost rest = all.subrange(i as int, all.len() as int);
        assert(rest[0] == traces@[i as int]@);
        if !traces[i].completed && traces[i].live == live {
            return i;
        }
        assert(rest.drop_first() =~= all.subrange(i + 1, all.len() as int));
        i += 1;
    }
    i
}

/// The size of a population.
fn count_pending(traces: &Vec<Trace>, live: bool) -> (r: usize)
    ensures
        r == population(trace_views(traces@), live),
{
    let mut i: usize = 0;
    let mut n: usize = 0;
    let ghost all = trace_views(traces@);
    while i < traces.len()
        invariant
            n <= i <= traces@.len(),
            all == trace_views(traces@),
            n == population(all.subrange(0, i as int), live),
        decreases traces@.len() - i,
    {
        let ghost upto = all.subrange(0, i + 1);
        assert(upto.drop_last() =~= all.subrange(0, i as int));
        assert(upto.last() == traces@[i as int]@);
        if !traces[i].completed && traces[i].live == live {
            n += 1;
        }
        i += 1;
    }
    assert(all.subrange(0, i as int) =~= all);
    n
}

/// Enforce a population cap: at most one trace goes. Returns whether one went.
fn enforce(traces: &mut Vec<Trace>, live: bool, cap: usize) -> (dropped: bool)
    ensures
        trace_views(final(traces)@) == bounded(trace_views(old(traces)@), live, cap as nat),
        dropped == (final(traces)@.len() < old(traces)@.len()),
        final(traces)@.len() == old(traces)@.len() - if dropped {
            1int
        } else {
            0
        },
{
    if count_pending(traces, live) > cap {
        let i = find_pending(traces, live);
        if i < traces.len() {
            let ghost before = traces@;
            traces.remove(i);
            assert(trace_views(traces@) =~= trace_views(before).remove(i as int));
            return true;
        }
    }
    false
}

/// Enforce both population caps. Returns how many traces went.
fn evict_pending(traces: &mut Vec<Trace>) -> (dropped: usize)
    ensures
        trace_views(final(traces)@) == both_bounded(trace_views(old(traces)@)),
        dropped == old(traces)@.len() - final(traces)@.len(),
{
    let a = enforce(traces, false, MAX_PENDING);
    let b = enforce(traces, true, MAX_LIVE);
    let x: usize = if a {
        1
    } else {
        0
    };
    let y: usize = if b {
        1
    } else {
        0
    };
    x + y
}

/// Drop the oldest completed traces beyond `cap`.
fn evict_completed(traces: &mut Vec<Trace>, order: &mut Vec<String>, cap: usize)
    ensures
        trace_views(final(traces)@) == within_window(
            trace_views(old(traces)@),
            crate::text::views(old(order)@),
            cap as nat,
        ),
        crate::text::views(final(order)@) == newest(crate::text::views(old(order)@), cap as nat),
{
    let ghost ts0 = trace_views(traces@);
    let ghost or0 = crate::text::views(order@);
    while order.len() > cap
        invariant
            within_window(ts0, or0, cap as nat) == within_window(
                trace_views(traces@),
                crate::text::views(order@),
                cap as nat,
            ),
            newest(or0, cap as nat) == newest(crate::text::views(order@), cap as nat),
        decreases order@.len(),
    {
        let ghost ts1 = trace_views(traces@);
        let ghost or1 = crate::text::views(order@);
        let key = order.remove(0);
        assert(key@ == or1[0]);
        assert(crate::text::views(order@) =~= or1.drop_first());
        assert(newest(or1.drop_first(), cap as nat) =~= newest(or1, cap as nat));
        let i = find(traces, key.as_str());
        if i < traces.len() {
            let ghost before = traces@;
            traces.remove(i);
            assert(trace_views(traces@) =~= trace_views(before).remove(i as int));
        }
        assert(trace_views(traces@) == without(ts1, or1[0]));
    }
}

impl SipRing {
    /// An empty ring with the default caps.
    pub fn new() -> (r: Self)
        ensures
            r@.wf(),
            r@ == (RingView {
                cap_calls: DEFAULT_CAPACITY as nat,
                cap_messages: DEFAULT_MAX_MESSAGES as nat,
                traces: Seq::empty(),
                completed: Seq::empty(),
            }),
    {
        let r = SipRing {
            cap_calls: DEFAULT_CAPACITY,
            cap_messages: DEFAULT_MAX_MESSAGES,
            traces: Vec::new(),
            completed_order: Vec::new(),
        };
        assert(r@.traces =~= Seq::empty());
        assert(r@.completed =~= Seq::empty());
        r
    }

    /// Traces held, in all three populations.
    pub fn trace_count(&self) -> (n: usize)
        ensures
            n == self@.traces.len(),
    {
        self.traces.len()
    }

    /// Traces of the live (`live`) or the noise population held.
    pub fn pending_count(&self, live: bool) -> (n: usize)
        ensures
            n == population(self@.traces, live),
    {
        count_pending(&self.traces, live)
    }
}

/// Resize the ring. `cap_calls == 0` turns capture off and drops everything held;
/// shrinking evicts the oldest completed traces and trims traces already held.
pub fn set_capacity(ring: &mut SipRing, cap_calls: usize, cap_messages: usize)
    requires
        old(ring)@.wf(),
    ensures
        final(ring)@.wf(),
        final(ring)@ == resized(old(ring)@, cap_calls as nat, cap_messages as nat),
{
    let ghost r0 = ring@;
    let cap: usize = if cap_messages == 0 {
        1
    } else {
        cap_messages
    };
    ring.cap_calls = cap_calls;
    ring.cap_messages = cap;
    if cap_calls == 0 {
        ring.traces.clear();
        ring.completed_order.clear();
        assert(ring@.traces =~= Seq::empty());
        assert(ring@.completed =~= Seq::empty());
        return;
    }
    evict_completed(&mut ring.traces, &mut ring.completed_order, cap_calls);
    proof {
        within_window_facts(r0.traces, r0.completed, r0.cap_messages, cap_calls as nat);
    }
    let ghost ts = trace_views(ring.traces@);
    let ghost goal = Seq::new(ts.len(), |i: int| shortened(ts[i], cap as nat));
    proof {
        shortened_facts(ts, newest(r0.completed, cap_calls as nat), r0.cap_messages, cap as nat);
    }
    let mut i: usize = 0;
    while i < ring.traces.len()
        invariant
            i <= ring.traces@.len(),
            ring.traces@.len() == ts.len(),
            ring.cap_calls == cap_calls,
            ring.cap_messages == cap,
            crate::text::views(ring.completed_order@) == newest(r0.completed, cap_calls as nat),
            forall|k: int| 0 <= k < i ==> (#[trigger] ring.traces@[k])@ == shortened(ts[k], cap as nat),
            forall|k: int| i <= k < ts.len() ==> (#[trigger] ring.traces@[k])@ == ts[k],
        decreases ring.traces@.len() - i,
    {
        let mut t = ring.traces.remove(i);
        let ghost all = t.messages@;
        assert(newest(all, cap as nat) =~= newest(t.messages@, cap as nat));
        while t.messages.len() > cap
            invariant
                t.id@ == ts[i as int].id,
                t.completed == ts[i as int].completed,
                t.live == ts[i as int].live,
                t.messages@.len() <= all.len(),
                t.messages@.len() == all.len() || t.messages@.len() >= cap,
                t.messages@ == all.subrange(all.len() - t.messages@.len(), all.len() as int),
                t.truncated == (ts[i as int].truncated || t.messages@.len() < all.len()),
            decreases t.messages@.len(),
        {
            let ghost m = t.messages@;
            t.messages.remove(0);
            assert(t.messages@ =~= all.subrange(all.len() - t.messages@.len(), all.len() as int));
            t.truncated = true;
        }
        assert(t@ =~= shortened(ts[i as int], cap as nat));
        let ghost rest = ring.traces@;
        ring.traces.insert(i, t);
        i += 1;
    }
    assert(ring@.traces =~= goal);
}

/// Capture one SIP message against `sip_call_id`.
pub fn push(ring: &mut SipRing, sip_call_id: &str, entry: SipMessageEntry) -> (r: PushReport)
    requires
        old(ring)@.wf(),
    ensures
        final(ring)@.wf(),
        final(ring)@ == pushed(old(ring)@, sip_call_id@, entry),
        r.captured == (old(ring)@.cap_calls > 0),
        r.dropped_call_cap == (r.captured && old(ring)@.holds(sip_call_id@)
            && old(ring)@.trace(sip_call_id@).messages.len() >= old(ring)@.cap_messages),
        r.captured ==> r.dropped_trace_cap == touched(
            old(ring)@.traces,
            sip_call_id@,
            entry,
            old(ring)@.cap_messages,
        ).len() - final(ring)@.traces.len(),
        !r.captured ==> r.dropped_trace_cap == 0,
        r.traces == final(ring)@.traces.len(),
{
    let ghost r0 = ring@;
    if ring.cap_calls == 0 {
        return PushReport {
            captured: false,
            dropped_call_cap: false,
            dropped_trace_cap: 0,
            traces: ring.traces.len(),
        };
    }
    let cap = ring.cap_messages;
    let ghost ts0 = trace_views(ring.traces@);
    let i = find(&ring.traces, sip_call_id);
    proof {
        position_facts(ts0, sip_call_id@);
        touched_facts(ts0, r0.completed, r0.cap_messages, sip_call_id@, entry);
    }
    let mut t = if i < ring.traces.len() {
        let ghost before = ring.traces@;
        let t = ring.traces.remove(i);
        assert(trace_views(ring.traces@) =~= ts0.remove(i as int));
        assert(t@ == ts0[i as int]);
        t
    } else {
        let t = Trace {
            id: sip_call_id.to_owned(),
            messages: Vec::new(),
            truncated: false,
            completed: false,
            live: false,
        };
        assert(t@ =~= fresh_trace(sip_call_id@));
        t
    };
    let ghost t0 = t@;
    let mut dropped_call_cap = false;
    if t.messages.len() >= cap {
        t.messages.remove(0);
        t.truncated = true;
        dropped_call_cap = true;
        assert(t.messages@ =~= t0.messages.drop_first());
    }
    t.messages.push(entry);
    assert(t@ =~= captured(t0, entry, cap as nat));
    let ghost base = ring.traces@;
    ring.traces.push(t);
    assert(trace_views(ring.traces@) =~= trace_views(base).push(t@));
    assert(trace_views(ring.traces@) == touched(ts0, sip_call_id@, entry, cap as nat));
    let ghost mid = trace_views(ring.traces@);
    let dropped_trace_cap = evict_pending(&mut ring.traces);
    proof {
        both_bounded_facts(mid, r0.completed, r0.cap_messages);
    }
    PushReport { captured: true, dropped_call_cap, dropped_trace_cap, traces: ring.traces.len() }
}

/// Promote a trace to the live population. A no-op for an id with no trace.
/// Returns how many traces the population caps dropped.
pub fn mark_live(ring: &mut SipRing, sip_call_id: &str) -> (dropped: usize)
    requires
        old(ring)@.wf(),
    ensures
        final(ring)@.wf(),
        final(ring)@ == marked_live(old(ring)@, sip_call_id@),
        dropped == old(ring)@.traces.len() - final(ring)@.traces.len(),
{
    let ghost r0 = ring@;
    if ring.cap_calls == 0 {
        return 0;
    }
    let ghost ts0 = trace_views(ring.traces@);
    let i = find(&ring.traces, sip_call_id);
    if i < ring.traces.len() {
        let mut t = ring.traces.remove(i);
        assert(t@ == ts0[i as int]);
        t.live = true;
        proof {
            relabel_facts(ts0, r0.completed, r0.cap_messages, i as int, t@);
            population_update(ts0, i as int, t@, false);
            population_update(ts0, i as int, t@, true);
        }
        ring.traces.insert(i, t);
        assert(trace_views(ring.traces@) =~= ts0.update(i as int, t@));
        assert(t@ =~= (TraceView { live: true, ..ts0[i as int] }));
    }
    let ghost mid = trace_views(ring.traces@);
    proof {
        both_bounded_facts(mid, r0.completed, r0.cap_messages);
    }
    evict_pending(&mut ring.traces)
}

/// Move a trace to the completed population. A no-op for an id with no trace, and
/// for one that is completed already. Returns whether the trace was completed now.
pub fn complete(ring: &mut SipRing, sip_call_id: &str) -> (done: bool)
    requires
        old(ring)@.wf(),
    ensures
        final(ring)@.wf(),
        final(ring)@ == completed(old(ring)@, sip_call_id@),
        done == (old(ring)@.holds(sip_call_id@) && !old(ring)@.trace(sip_call_id@).completed),
{
    let ghost r0 = ring@;
    if ring.cap_calls == 0 {
        return false;
    }
    let ghost ts0 = trace_views(ring.traces@);
    let i = find(&ring.traces, sip_call_id);
    if i >= ring.traces.len() {
        return false;
    }
    assert(ts0[i as int] == ring.traces@[i as int]@);
    if ring.traces[i].completed {
        return false;
    }
    proof {
        position_facts(ts0, sip_call_id@);
        complete_facts(ts0, r0.completed, r0.cap_messages, i as int);
    }
    let mut t = ring.traces.remove(i);
    t.completed = true;
    t.live = false;
    assert(t@ =~= (TraceView { completed: true, live: false, ..ts0[i as int] }));
    ring.traces.insert(i, t);
    assert(trace_views(ring.traces@) =~= ts0.update(i as int, t@));
    let ghost order0 = ring.completed_order@;
    ring.completed_order.push(sip_call_id.to_owned());
    assert(crate::text::views(ring.completed_order@) =~= r0.completed.push(sip_call_id@));
    let ghost ts1 = trace_views(ring.traces@);
    let cap = ring.cap_calls;
    evict_completed(&mut ring.traces, &mut ring.completed_order, cap);
    proof {
        within_window_facts(ts1, r0.completed.push(sip_call_id@), r0.cap_messages, cap as nat);
    }
    true
}

/// The messages held for `sip_call_id`, oldest first, and whether the per-call cap
/// dropped anything. `None` when nothing is held.
pub fn snapshot(ring: &SipRing, sip_call_id: &str) -> (r: Option<(Vec<SipMessageEntry>, bool)>)
    ensures
        match r {
            Some(p) => {
                &&& ring@.holds(sip_call_id@)
                &&& p.0@ == ring@.trace(sip_call_id@).messages
                &&& p.1 == ring@.trace(sip_call_id@).truncated
            },
            None => !ring@.holds(sip_call_id@),
        },
{
    let i = find(&ring.traces, sip_call_id);
    if i < ring.traces.len() {
        let t = &ring.traces[i];
        assert(ring@.traces[i as int] == t@);
        let mut out: Vec<SipMessageEntry> = Vec::new();
        let mut k: usize = 0;
        while k < t.messages.len()
            invariant
                k <= t.messages@.len(),
                out@ == t.messages@.subrange(0, k as int),
            decreases t.messages@.len() - k,
        {
            out.push(t.messages[k].clone());
            assert(t.messages@.subrange(0, k + 1) =~= t.messages@.subrange(0, k as int).push(
                t.messages@[k as int],
            ));
            k += 1;
        }
        assert(out@ =~= t.messages@);
        Some((out, t.truncated))
    } else {
        None
    }
}

/// Whether capture is on.
pub fn is_enabled(ring: &SipRing) -> (r: bool)
    ensures
        r == (ring@.cap_calls > 0),
{
    ring.cap_calls > 0
}

// ---- Laws ----

/// Where a trace other than the touched one stands after a capture.
proof fn touched_keeps(
    ts: Seq<TraceView>,
    id: Seq<char>,
    e: SipMessageEntry,
    cap: nat,
    other: Seq<char>,
)
    requires
        ids_unique(ts),
        other != id,
    ensures
        ids_unique(touched(ts, id, e, cap)),
        ({
            let p = position(ts, other);
            let q = position(touched(ts, id, e, cap), other);
            (p < ts.len() <==> q < touched(ts, id, e, cap).len()) && (p < ts.len() ==> touched(
                ts,
                id,
                e,
                cap,
            )[q] == ts[p])
        }),
{
    position_facts(ts, id);
    let i = position(ts, id);
    if i < ts.len() {
        let base = ts.remove(i);
        let t = captured(ts[i], e, cap);
        position_after_remove(ts, i, id);
        position_after_remove(ts, i, other);
        position_after_push(base, t, other);
        position_facts(base, other);
    } else {
        let t = captured(fresh_trace(id), e, cap);
        position_after_push(ts, t, other);
        position_facts(ts, other);
    }
}

/// Enforcing the cap of one population keeps every trace of the other.
proof fn bounded_keeps(ts: Seq<TraceView>, live: bool, cap: nat, id: Seq<char>)
    requires
        ids_unique(ts),
        position(ts, id) < ts.len(),
        !pending(ts[position(ts, id)], live),
    ensures
        ids_unique(bounded(ts, live, cap)),
        position(bounded(ts, live, cap), id) < bounded(ts, live, cap).len(),
        bounded(ts, live, cap)[position(bounded(ts, live, cap), id)] == ts[position(ts, id)],
{
    first_pending_facts(ts, live);
    position_facts(ts, id);
    let i = first_pending(ts, live);
    if population(ts, live) > cap && i < ts.len() {
        position_of_member(ts, i);
        position_after_remove(ts, i, id);
    }
}

/// Noise never evicts a call in progress: capturing a message of any other dialog
/// leaves a live trace, and its messages, exactly as they were.
pub proof fn noise_never_evicts_a_live_call(
    r: RingView,
    id: Seq<char>,
    e: SipMessageEntry,
    call: Seq<char>,
)
    requires
        r.wf(),
        call != id,
        r.holds(call),
        pending(r.trace(call), true),
    ensures
        pushed(r, id, e).holds(call),
        pushed(r, id, e).trace(call) == r.trace(call),
{
    let ts = touched(r.traces, id, e, r.cap_messages);
    touched_keeps(r.traces, id, e, r.cap_messages, call);
    touched_facts(r.traces, r.completed, r.cap_messages, id, e);
    bounded_keeps(ts, false, MAX_PENDING as nat, call);
    bounded_facts(ts, r.completed, r.cap_messages, false, MAX_PENDING as nat);
}

/// The last of two pending traces of one population is not its first.
proof fn last_is_not_first(ts: Seq<TraceView>, live: bool)
    requires
        population(ts, live) >= 2,
    ensures
        first_pending(ts, live) < ts.len() - 1,
{
    let front = ts.drop_last();
    population_has_first(front, live);
    first_pending_facts(front, live);
    first_pending_facts(ts, live);
    assert(front[first_pending(front, live)] == ts[first_pending(front, live)]);
}

/// What was captured is what a read gives back: right after a capture the dialog's
/// trace is held, new or as it was, and ends with the message.
pub proof fn a_captured_message_is_read_back(r: RingView, id: Seq<char>, e: SipMessageEntry)
    requires
        r.wf(),
        r.cap_calls > 0,
    ensures
        pushed(r, id, e).holds(id),
        pushed(r, id, e).trace(id) == captured(
            if r.holds(id) {
                r.trace(id)
            } else {
                fresh_trace(id)
            },
            e,
            r.cap_messages,
        ),
        pushed(r, id, e).trace(id).messages.len() > 0,
        pushed(r, id, e).trace(id).messages.last() == e,
{
    position_facts(r.traces, id);
    touched_facts(r.traces, r.completed, r.cap_messages, id, e);
    let ts = touched(r.traces, id, e, r.cap_messages);
    let last = ts.len() - 1;
    assert(ts[last].id == id);
    assert(ts[last].messages.last() == e);
    position_of_member(ts, last);
    let cap = MAX_PENDING as nat;
    let t1 = bounded(ts, false, cap);
    bounded_facts(ts, r.completed, r.cap_messages, false, cap);
    if population(ts, false) > cap {
        last_is_not_first(ts, false);
        let i = first_pending(ts, false);
        first_pending_facts(ts, false);
        position_of_member(ts, i);
        position_after_remove(ts, i, id);
    }
    assert(t1[position(t1, id)] == ts[last]);
}

/// A trace holds the newest messages of its dialog, never more than the cap, and
/// says so when it dropped one.
pub proof fn a_trace_keeps_the_newest_messages(t: TraceView, e: SipMessageEntry, cap: nat)
    requires
        cap >= 1,
        t.messages.len() <= cap,
    ensures
        captured(t, e, cap).messages == newest(t.messages.push(e), cap),
        captured(t, e, cap).truncated == (t.truncated || t.messages.len() == cap),
{
    if t.messages.len() >= cap {
        assert(t.messages.drop_first().push(e) =~= newest(t.messages.push(e), cap));
    } else {
        assert(t.messages.push(e) =~= newest(t.messages.push(e), cap));
    }
}

/// Bounding traces whose populations are within their caps changes nothing.
proof fn both_bounded_is_identity(ts: Seq<TraceView>)
    requires
        population(ts, false) <= MAX_PENDING,
        population(ts, true) <= MAX_LIVE,
    ensures
        both_bounded(ts) == ts,
{
}

/// Marking a call live twice is marking it once.
pub proof fn mark_live_is_idempotent(r: RingView, id: Seq<char>)
    requires
        r.wf(),
    ensures
        marked_live(marked_live(r, id), id) == marked_live(r, id),
{
    if r.cap_calls > 0 {
        position_facts(r.traces, id);
        let i = position(r.traces, id);
        if i < r.traces.len() {
            let t = TraceView { live: true, ..r.traces[i] };
            let ts = r.traces.update(i, t);
            relabel_facts(r.traces, r.completed, r.cap_messages, i, t);
            population_update(r.traces, i, t, false);
            population_update(r.traces, i, t, true);
            both_bounded_facts(ts, r.completed, r.cap_messages);
            let out = both_bounded(ts);
            position_facts(out, id);
            let q = position(out, id);
            if q < out.len() {
                both_bounded_is_identity(out);
                position_congruent(r.traces, ts, id);
                assert(out[q].live) by {
                    members_survive(ts, out, q);
                    let j = choose|j: int| 0 <= j < ts.len() && ts[j] == out[q];
                    position_of_member(ts, j);
                }
                assert(out.update(q, TraceView { live: true, ..out[q] }) =~= out);
            } else {
                both_bounded_is_identity(out);
            }
        } else {
            both_bounded_is_identity(r.traces);
            assert(marked_live(r, id) =~= r);
        }
    }
}

/// Every trace left after bounding was there before.
proof fn members_survive(ts: Seq<TraceView>, out: Seq<TraceView>, q: int)
    requires
        out == both_bounded(ts),
        0 <= q < out.len(),
    ensures
        exists|j: int| 0 <= j < ts.len() && ts[j] == out[q],
{
    let t1 = bounded(ts, false, MAX_PENDING as nat);
    first_pending_facts(ts, false);
    first_pending_facts(t1, true);
    let j1 = if out.len() == t1.len() || q < first_pending(t1, true) {
        q
    } else {
        q + 1
    };
    assert(t1[j1] == out[q]);
    let j0 = if t1.len() == ts.len() || j1 < first_pending(ts, false) {
        j1
    } else {
        j1 + 1
    };
    assert(ts[j0] == t1[j1]);
}

/// Dropping the oldest completed traces keeps every trace outside the dropped ids.
proof fn within_window_keeps(
    ts: Seq<TraceView>,
    order: Seq<Seq<char>>,
    cap_messages: nat,
    cap: nat,
    id: Seq<char>,
)
    requires
        sound(ts, order, cap_messages),
        position(ts, id) < ts.len(),
        forall|k: int| 0 <= k < order.len() - cap ==> order[k] != id,
    ensures
        ({
            let out = within_window(ts, order, cap);
            position(out, id) < out.len() && out[position(out, id)] == ts[position(ts, id)]
        }),
    decreases order.len(),
{
    if order.len() > cap {
        let first = order[0];
        let i = position(ts, first);
        assert(i < ts.len());
        position_facts(ts, first);
        position_after_remove(ts, i, id);
        drop_oldest_facts(ts, order, cap_messages);
        let rest = order.drop_first();
        assert forall|k: int| 0 <= k < rest.len() - cap implies rest[k] != id by {
            assert(rest[k] == order[k + 1]);
        }
        within_window_keeps(without(ts, first), rest, cap_messages, cap, id);
    }
}

/// Completing a call releases its live slot and keeps its trace: it is the newest
/// of the completed window.
pub proof fn completing_releases_the_live_slot(r: RingView, id: Seq<char>)
    requires
        r.wf(),
        r.holds(id),
        !r.trace(id).completed,
    ensures
        completed(r, id).holds(id),
        completed(r, id).trace(id) == (TraceView { completed: true, live: false, ..r.trace(id) }),
        completed(r, id).completed.last() == id,
{
    position_facts(r.traces, id);
    let i = position(r.traces, id);
    let t = TraceView { completed: true, live: false, ..r.traces[i] };
    let ts = r.traces.update(i, t);
    let order = r.completed.push(id);
    complete_facts(r.traces, r.completed, r.cap_messages, i);
    position_congruent(r.traces, ts, id);
    assert forall|k: int| 0 <= k < order.len() - r.cap_calls implies order[k] != id by {
        assert(order[order.len() - 1] == id);
    }
    within_window_keeps(ts, order, r.cap_messages, r.cap_calls, id);
}

/// Completing a call twice is completing it once.
pub proof fn complete_is_idempotent(r: RingView, id: Seq<char>)
    requires
        r.wf(),
    ensures
        completed(completed(r, id), id) == completed(r, id),
{
    if r.holds(id) && !r.trace(id).completed && r.cap_calls > 0 {
        completing_releases_the_live_slot(r, id);
    }
}

/// Completing one call keeps every trace that is not itself in the completed
/// window: calls in progress and noise alike.
pub proof fn completing_keeps_pending_traces(r: RingView, id: Seq<char>, other: Seq<char>)
    requires
        r.wf(),
        other != id,
        r.holds(other),
        !r.trace(other).completed,
    ensures
        completed(r, id).holds(other),
        completed(r, id).trace(other) == r.trace(other),
{
    position_facts(r.traces, id);
    position_facts(r.traces, other);
    let i = position(r.traces, id);
    if r.cap_calls > 0 && i < r.traces.len() && !r.traces[i].completed {
        let t = TraceView { completed: true, live: false, ..r.traces[i] };
        let ts = r.traces.update(i, t);
        let order = r.completed.push(id);
        complete_facts(r.traces, r.completed, r.cap_messages, i);
        position_congruent(r.traces, ts, other);
        assert forall|k: int| 0 <= k < order.len() - r.cap_calls implies order[k] != other by {
            if k < r.completed.len() {
                assert(order[k] == r.completed[k]);
                let p = position(r.traces, r.completed[k]);
                assert(r.traces[p].completed);
            }
        }
        within_window_keeps(ts, order, r.cap_messages, r.cap_calls, other);
    }
}

/// The ids of the completed traces among `ts`.
spec fn completed_ids(ts: Seq<TraceView>) -> Seq<Seq<char>>
    decreases ts.len(),
{
    if ts.len() == 0 {
        Seq::empty()
    } else if ts.last().completed {
        completed_ids(ts.drop_last()).push(ts.last().id)
    } else {
        completed_ids(ts.drop_last())
    }
}

proof fn completed_ids_facts(ts: Seq<TraceView>, order: Seq<Seq<char>>)
    requires
        ids_unique(ts),
        forall|i: int| 0 <= i < ts.len() && (#[trigger] ts[i]).completed ==> order.contains(
            ts[i].id,
        ),
    ensures
        completed_ids(ts).no_duplicates(),
        forall|k: int|
            0 <= k < completed_ids(ts).len() ==> order.contains(#[trigger] completed_ids(ts)[k]),
        forall|k: int|
            0 <= k < completed_ids(ts).len() ==> exists|i: int|
                0 <= i < ts.len() && ts[i].id == #[trigger] completed_ids(ts)[k],
        ts.len() == completed_ids(ts).len() + population(ts, false) + population(ts, true),
    decreases ts.len(),
{
    if ts.len() > 0 {
        let front = ts.drop_last();
        assert forall|i: int| 0 <= i < front.len() && (#[trigger] front[i]).completed implies order.contains(front[i].id) by {
            assert(front[i] == ts[i]);
        }
        completed_ids_facts(front, order);
        let ids = completed_ids(ts);
        assert(ts.last() == ts[ts.len() - 1]);
        assert forall|k: int| 0 <= k < ids.len() implies exists|i: int|
            0 <= i < ts.len() && ts[i].id == #[trigger] ids[k] by {
            if k < completed_ids(front).len() {
                assert(ids[k] == completed_ids(front)[k]);
                let i = choose|i: int| 0 <= i < front.len() && front[i].id == completed_ids(front)[k];
                assert(ts[i].id == ids[k]);
            } else {
                assert(ts[ts.len() - 1].id == ids[k]);
            }
        }
        assert(ids.no_duplicates()) by {
            assert forall|a: int, b: int| 0 <= a < ids.len() && 0 <= b < ids.len() && a != b implies ids[a] != ids[b] by {
                if ts.last().completed {
                    let lo = if a < b {
                        a
                    } else {
                        b
                    };
                    let hi = if a < b {
                        b
                    } else {
                        a
                    };
                    assert(ids[lo] == completed_ids(front)[lo]);
                    let i = choose|i: int|
                        0 <= i < front.len() && front[i].id == completed_ids(front)[lo];
                    assert(ts[i].id == ids[lo]);
                    if hi == completed_ids(front).len() {
                        assert(ids[hi] == ts.last().id);
                    } else {
                        assert(ids[hi] == completed_ids(front)[hi]);
                    }
                }
            }
        }
        assert forall|k: int| 0 <= k < ids.len() implies order.contains(#[trigger] ids[k]) by {
            if k < completed_ids(front).len() {
                assert(ids[k] == completed_ids(front)[k]);
            }
        }
    }
}

/// The ring is bounded whatever traffic it sees: it never holds more traces than
/// the three caps allow, nor more messages per trace than the message cap.
pub proof fn the_ring_is_bounded(r: RingView)
    requires
        r.wf(),
    ensures
        r.traces.len() <= MAX_PENDING + MAX_LIVE + r.cap_calls,
        forall|i: int|
            0 <= i < r.traces.len() ==> (#[trigger] r.traces[i]).messages.len() <= r.cap_messages,
{
    completed_ids_facts(r.traces, r.completed);
    let ids = completed_ids(r.traces);
    ids.unique_seq_to_set();
    r.completed.unique_seq_to_set();
    assert(ids.to_set().subset_of(r.completed.to_set())) by {
        assert forall|x: Seq<char>| ids.to_set().contains(x) implies r.completed.to_set().contains(x) by {
            let k = choose|k: int| 0 <= k < ids.len() && ids[k] == x;
            assert(r.completed.contains(ids[k]));
        }
    }
    vstd::set_lib::lemma_len_subset(ids.to_set(), r.completed.to_set());
}

/// With capture off nothing is held, and nothing is captured.
pub proof fn zero_disables_capture(r: RingView, cap_messages: nat, id: Seq<char>, e: SipMessageEntry)
    ensures
        resized(r, 0, cap_messages).traces.len() == 0,
        pushed(resized(r, 0, cap_messages), id, e) == resized(r, 0, cap_messages),
        !pushed(resized(r, 0, cap_messages), id, e).holds(id),
{
}

// ---- Laws over any number of operations ----

/// A capture keeps the invariant, the caps, the completed window and the number of
/// live calls.
proof fn pushed_facts(r: RingView, id: Seq<char>, e: SipMessageEntry)
    requires
        r.wf(),
    ensures
        pushed(r, id, e).wf(),
        pushed(r, id, e).cap_calls == r.cap_calls,
        pushed(r, id, e).cap_messages == r.cap_messages,
        pushed(r, id, e).completed == r.completed,
        population(pushed(r, id, e).traces, true) == population(r.traces, true),
{
    if r.cap_calls > 0 {
        let ts = touched(r.traces, id, e, r.cap_messages);
        touched_facts(r.traces, r.completed, r.cap_messages, id, e);
        both_bounded_facts(ts, r.completed, r.cap_messages);
        bounded_facts(ts, r.completed, r.cap_messages, false, MAX_PENDING as nat);
    }
}

/// The ring after a run of captures, each a dialog and a message.
pub open spec fn flooded(r: RingView, run: Seq<(Seq<char>, SipMessageEntry)>) -> RingView
    decreases run.len(),
{
    if run.len() == 0 {
        r
    } else {
        flooded(pushed(r, run[0].0, run[0].1), run.drop_first())
    }
}

/// Any number of captures on other dialogs leaves a call in progress, and its
/// messages, exactly as they were, and holds no more noise than its cap.
pub proof fn a_flood_never_evicts_a_live_call(
    r: RingView,
    run: Seq<(Seq<char>, SipMessageEntry)>,
    call: Seq<char>,
)
    requires
        r.wf(),
        r.holds(call),
        pending(r.trace(call), true),
        forall|k: int| 0 <= k < run.len() ==> (#[trigger] run[k]).0 != call,
    ensures
        flooded(r, run).wf(),
        flooded(r, run).holds(call),
        flooded(r, run).trace(call) == r.trace(call),
        population(flooded(r, run).traces, false) <= MAX_PENDING,
    decreases run.len(),
{
    if run.len() > 0 {
        let (id, e) = run[0];
        let rest = run.drop_first();
        assert(run[0].0 != call);
        pushed_facts(r, id, e);
        noise_never_evicts_a_live_call(r, id, e, call);
        assert forall|k: int| 0 <= k < rest.len() implies (#[trigger] rest[k]).0 != call by {
            assert(rest[k] == run[k + 1]);
        }
        a_flood_never_evicts_a_live_call(pushed(r, id, e), rest, call);
    }
}

/// The messages of the dialog `id` in a run of captures.
pub open spec fn messages_of(run: Seq<(Seq<char>, SipMessageEntry)>, id: Seq<char>) -> Seq<
    SipMessageEntry,
>
    decreases run.len(),
{
    if run.len() == 0 {
        Seq::empty()
    } else if run[0].0 == id {
        seq![run[0].1] + messages_of(run.drop_first(), id)
    } else {
        messages_of(run.drop_first(), id)
    }
}

/// The messages held for `id`, none when it has no trace.
pub open spec fn held_of(r: RingView, id: Seq<char>) -> Seq<SipMessageEntry> {
    if r.holds(id) {
        r.trace(id).messages
    } else {
        Seq::empty()
    }
}

/// The cap has dropped a message of `id`.
pub open spec fn truncated_of(r: RingView, id: Seq<char>) -> bool {
    r.holds(id) && r.trace(id).truncated
}

/// No capture of the run can push the trace `id` out: it is not noise, or there is no
/// other dialog in the run, or every dialog of the run has room.
pub open spec fn safe_from(
    r: RingView,
    run: Seq<(Seq<char>, SipMessageEntry)>,
    id: Seq<char>,
) -> bool {
    ||| r.holds(id) && !pending(r.trace(id), false)
    ||| forall|k: int| 0 <= k < run.len() ==> (#[trigger] run[k]).0 == id
    ||| population(r.traces, false) + run.len() <= MAX_PENDING
}

proof fn a_step_keeps_safety(r: RingView, run: Seq<(Seq<char>, SipMessageEntry)>, id: Seq<char>)
    requires
        r.wf(),
        r.cap_calls > 0,
        run.len() > 0,
        safe_from(r, run, id),
    ensures
        safe_from(pushed(r, run[0].0, run[0].1), run.drop_first(), id),
        run[0].0 != id ==> {
            &&& pushed(r, run[0].0, run[0].1).holds(id) == r.holds(id)
            &&& r.holds(id) ==> pushed(r, run[0].0, run[0].1).trace(id) == r.trace(id)
        },
{
    let (other, e) = run[0];
    let rest = run.drop_first();
    let next = pushed(r, other, e);
    let ts = touched(r.traces, other, e, r.cap_messages);
    touched_facts(r.traces, r.completed, r.cap_messages, other, e);
    bounded_facts(ts, r.completed, r.cap_messages, false, MAX_PENDING as nat);
    if r.holds(id) && !pending(r.trace(id), false) {
        if other == id {
            a_captured_message_is_read_back(r, id, e);
        } else {
            touched_keeps(r.traces, other, e, r.cap_messages, id);
            bounded_keeps(ts, false, MAX_PENDING as nat, id);
        }
    } else if population(r.traces, false) + run.len() <= MAX_PENDING {
        pushed_with_room(r, other, e);
        if other != id {
            touched_keeps(r.traces, other, e, r.cap_messages, id);
        }
    } else {
        assert(run[0].0 == id);
        assert forall|k: int| 0 <= k < rest.len() implies (#[trigger] rest[k]).0 == id by {
            assert(rest[k] == run[k + 1]);
        }
    }
}

/// What a snapshot gives after any number of captures: the newest messages of the
/// dialog, those held before and those of the run in order, and whether the cap
/// dropped any of them. A dialog that was not held and is not in the run has none.
pub proof fn a_run_of_messages_is_read_back(
    r: RingView,
    run: Seq<(Seq<char>, SipMessageEntry)>,
    id: Seq<char>,
)
    requires
        r.wf(),
        r.cap_calls > 0,
        safe_from(r, run, id),
    ensures
        ({
            let all = held_of(r, id) + messages_of(run, id);
            let after = flooded(r, run);
            &&& after.wf()
            &&& after.holds(id) == (r.holds(id) || messages_of(run, id).len() > 0)
            &&& after.holds(id) ==> {
                &&& after.trace(id).messages == newest(all, r.cap_messages)
                &&& after.trace(id).truncated == (truncated_of(r, id) || all.len()
                    > r.cap_messages)
            }
        }),
    decreases run.len(),
{
    let held = held_of(r, id);
    let cap = r.cap_messages;
    position_facts(r.traces, id);
    if run.len() == 0 {
        assert(held + messages_of(run, id) =~= held);
    } else {
        let (other, e) = run[0];
        let rest = run.drop_first();
        let next = pushed(r, other, e);
        let later = messages_of(rest, id);
        pushed_facts(r, other, e);
        a_step_keeps_safety(r, run, id);
        a_run_of_messages_is_read_back(next, rest, id);
        if other == id {
            a_captured_message_is_read_back(r, id, e);
            let t = if r.holds(id) {
                r.trace(id)
            } else {
                fresh_trace(id)
            };
            assert(t.messages == held);
            a_trace_keeps_the_newest_messages(t, e, cap);
            assert(held_of(next, id) == newest(held.push(e), cap));
            assert(held + (seq![e] + later) =~= held.push(e) + later);
            assert(newest(newest(held.push(e), cap) + later, cap) =~= newest(
                held.push(e) + later,
                cap,
            ));
        } else {
            assert(held_of(next, id) == held);
        }
    }
}

/// Marking a call live that has a live slot left keeps the invariant and changes
/// nothing of its trace but the mark.
proof fn marked_live_facts(r: RingView, id: Seq<char>)
    requires
        r.wf(),
        r.holds(id),
        r.cap_calls > 0,
        population(r.traces, true) < MAX_LIVE || r.trace(id).live || r.trace(id).completed,
    ensures
        marked_live(r, id).wf(),
        marked_live(r, id).holds(id),
        marked_live(r, id).trace(id) == (TraceView { live: true, ..r.trace(id) }),
        r.trace(id).live ==> marked_live(r, id) == r,
{
    position_facts(r.traces, id);
    let i = position(r.traces, id);
    let t = TraceView { live: true, ..r.traces[i] };
    let ts = r.traces.update(i, t);
    relabel_facts(r.traces, r.completed, r.cap_messages, i, t);
    population_update(r.traces, i, t, false);
    population_update(r.traces, i, t, true);
    position_congruent(r.traces, ts, id);
    both_bounded_is_identity(ts);
    if r.traces[i].live {
        assert(ts =~= r.traces);
        assert(marked_live(r, id) =~= r);
    }
}

/// A call that was answered and marked live keeps its messages through any amount of
/// traffic on other dialogs, and marking it again changes nothing.
pub proof fn a_call_marked_live_keeps_its_messages(
    r: RingView,
    id: Seq<char>,
    first: SipMessageEntry,
    second: SipMessageEntry,
    run: Seq<(Seq<char>, SipMessageEntry)>,
)
    requires
        r.wf(),
        r.cap_calls > 0,
        r.cap_messages >= 2,
        !r.holds(id),
        population(r.traces, true) < MAX_LIVE,
        forall|k: int| 0 <= k < run.len() ==> (#[trigger] run[k]).0 != id,
    ensures
        ({
            let live = marked_live(pushed(pushed(r, id, first), id, second), id);
            let after = flooded(live, run);
            &&& after.holds(id)
            &&& after.trace(id).messages == seq![first, second]
            &&& population(after.traces, false) <= MAX_PENDING
            &&& marked_live(after, id) == after
        }),
{
    let one = pushed(r, id, first);
    let two = pushed(one, id, second);
    let live = marked_live(two, id);
    let after = flooded(live, run);
    pushed_facts(r, id, first);
    a_captured_message_is_read_back(r, id, first);
    pushed_facts(one, id, second);
    a_captured_message_is_read_back(one, id, second);
    assert(two.trace(id).messages =~= seq![first, second]);
    marked_live_facts(two, id);
    a_flood_never_evicts_a_live_call(live, run, id);
    flooded_keeps_caps(live, run);
    marked_live_facts(after, id);
}

proof fn flooded_keeps_caps(r: RingView, run: Seq<(Seq<char>, SipMessageEntry)>)
    ensures
        flooded(r, run).cap_calls == r.cap_calls,
    decreases run.len(),
{
    if run.len() > 0 {
        flooded_keeps_caps(pushed(r, run[0].0, run[0].1), run.drop_first());
    }
}

/// Marking a dialog without a trace live creates none.
pub proof fn marking_an_unknown_call_changes_nothing(r: RingView, id: Seq<char>)
    requires
        r.wf(),
        !r.holds(id),
    ensures
        marked_live(r, id) == r,
{
    position_facts(r.traces, id);
    both_bounded_is_identity(r.traces);
    assert(marked_live(r, id) =~= r);
}

/// One step of the traffic on a node.
pub enum Traffic {
    /// A message of a dialog that is never completed.
    Noise { id: Seq<char>, entry: SipMessageEntry },
    /// A call: a message of it, and its completion.
    Call { id: Seq<char>, entry: SipMessageEntry },
}

/// The ring after one step.
pub open spec fn stepped(r: RingView, step: Traffic) -> RingView {
    match step {
        Traffic::Noise { id, entry } => pushed(r, id, entry),
        Traffic::Call { id, entry } => completed(pushed(r, id, entry), id),
    }
}

/// The ring after a run of steps.
pub open spec fn ran(r: RingView, run: Seq<Traffic>) -> RingView
    decreases run.len(),
{
    if run.len() == 0 {
        r
    } else {
        stepped(ran(r, run.drop_last()), run.last())
    }
}

/// The calls of a run, in the order of their completion.
pub open spec fn calls_of(run: Seq<Traffic>) -> Seq<Seq<char>>
    decreases run.len(),
{
    if run.len() == 0 {
        Seq::empty()
    } else {
        match run.last() {
            Traffic::Call { id, .. } => calls_of(run.drop_last()).push(id),
            Traffic::Noise { .. } => calls_of(run.drop_last()),
        }
    }
}

/// The dialogs of a run that are never completed.
pub open spec fn noise_of(run: Seq<Traffic>) -> Set<Seq<char>>
    decreases run.len(),
{
    if run.len() == 0 {
        Set::empty()
    } else {
        match run.last() {
            Traffic::Call { .. } => noise_of(run.drop_last()),
            Traffic::Noise { id, .. } => noise_of(run.drop_last()).insert(id),
        }
    }
}

/// What a run that started on an empty ring leaves: the noise, all of it pending, and
/// the completed window, and nothing else.
spec fn accounted(r: RingView, s: RingView, run: Seq<Traffic>) -> bool {
    &&& s.wf()
    &&& s.cap_calls == r.cap_calls
    &&& s.cap_messages == r.cap_messages
    &&& s.completed == newest(calls_of(run), r.cap_calls)
    &&& noise_of(run).finite()
    &&& population(s.traces, false) == noise_of(run).len()
    &&& population(s.traces, true) == 0
    &&& forall|x: Seq<char>| #[trigger]
        noise_of(run).contains(x) ==> s.holds(x) && pending(s.trace(x), false)
    &&& forall|x: Seq<char>| #[trigger]
        s.holds(x) ==> noise_of(run).contains(x) || s.completed.contains(x)
}

proof fn newest_is_drawn(c: Seq<Seq<char>>, cap: nat, x: Seq<char>)
    requires
        newest(c, cap).contains(x),
    ensures
        c.contains(x),
{
    let k = choose|k: int| 0 <= k < newest(c, cap).len() && newest(c, cap)[k] == x;
    let skipped = c.len() - newest(c, cap).len();
    assert(c[skipped + k] == x);
}

/// Capturing on a ring with room for one more: nothing is evicted.
proof fn pushed_with_room(r: RingView, id: Seq<char>, e: SipMessageEntry)
    requires
        r.wf(),
        r.cap_calls > 0,
        population(r.traces, false) < MAX_PENDING || r.holds(id),
    ensures
        pushed(r, id, e).traces == touched(r.traces, id, e, r.cap_messages),
        population(pushed(r, id, e).traces, false) == population(r.traces, false) + (if r.holds(
            id,
        ) {
            0nat
        } else {
            1
        }),
{
    let ts = r.traces;
    let i = position(ts, id);
    position_facts(ts, id);
    touched_facts(ts, r.completed, r.cap_messages, id, e);
    if i < ts.len() {
        population_remove(ts, i, false);
        population_push(ts.remove(i), captured(ts[i], e, r.cap_messages), false);
    } else {
        population_push(ts, captured(fresh_trace(id), e, r.cap_messages), false);
    }
    both_bounded_is_identity(touched(ts, id, e, r.cap_messages));
}

proof fn within_window_is_drawn(ts: Seq<TraceView>, order: Seq<Seq<char>>, cap: nat, q: int)
    requires
        0 <= q < within_window(ts, order, cap).len(),
    ensures
        ts.contains(within_window(ts, order, cap)[q]),
    decreases order.len(),
{
    if order.len() > cap {
        let rest = without(ts, order[0]);
        let t = within_window(ts, order, cap)[q];
        within_window_is_drawn(rest, order.drop_first(), cap, q);
        let k = choose|k: int| 0 <= k < rest.len() && rest[k] == t;
        let i = position(ts, order[0]);
        position_facts(ts, order[0]);
        if i < ts.len() && k >= i {
            assert(ts[k + 1] == t);
        } else {
            assert(ts[k] == t);
        }
    } else {
        assert(ts[q] == within_window(ts, order, cap)[q]);
    }
}

/// Completing a pending trace: the invariant, the window, and the populations.
proof fn completed_facts(r: RingView, id: Seq<char>)
    requires
        r.wf(),
        r.cap_calls > 0,
        r.holds(id),
        pending(r.trace(id), false),
    ensures
        completed(r, id).wf(),
        completed(r, id).cap_calls == r.cap_calls,
        completed(r, id).cap_messages == r.cap_messages,
        completed(r, id).completed == newest(r.completed.push(id), r.cap_calls),
        population(completed(r, id).traces, false) == population(r.traces, false) - 1,
        population(completed(r, id).traces, true) == population(r.traces, true),
{
    position_facts(r.traces, id);
    let i = position(r.traces, id);
    let t = TraceView { completed: true, live: false, ..r.traces[i] };
    let ts = r.traces.update(i, t);
    population_update(r.traces, i, t, false);
    population_update(r.traces, i, t, true);
    complete_facts(r.traces, r.completed, r.cap_messages, i);
    within_window_facts(ts, r.completed.push(id), r.cap_messages, r.cap_calls);
}

/// A trace that is pending after a completion was pending before it.
proof fn pending_was_pending(r: RingView, id: Seq<char>, other: Seq<char>)
    requires
        r.wf(),
        r.cap_calls > 0,
        r.holds(id),
        !r.trace(id).completed,
        completed(r, id).holds(other),
        !completed(r, id).trace(other).completed,
    ensures
        r.holds(other),
        r.trace(other) == completed(r, id).trace(other),
{
    position_facts(r.traces, id);
    let i = position(r.traces, id);
    let ts = r.traces.update(i, TraceView { completed: true, live: false, ..r.traces[i] });
    let out = completed(r, id).traces;
    position_facts(out, other);
    let q = position(out, other);
    within_window_is_drawn(ts, r.completed.push(id), r.cap_calls, q);
    let j = choose|j: int| 0 <= j < ts.len() && ts[j] == out[q];
    assert(j != i);
    assert(r.traces[j] == out[q]);
    position_of_member(r.traces, j);
}

proof fn noise_is_accounted(r: RingView, run: Seq<Traffic>, id: Seq<char>, entry: SipMessageEntry)
    requires
        run.len() > 0,
        run.last() == (Traffic::Noise { id, entry }),
        accounted(r, ran(r, run.drop_last()), run.drop_last()),
        r.cap_calls > 0,
        !calls_of(run).contains(id),
        noise_of(run).len() < MAX_PENDING,
    ensures
        accounted(r, ran(r, run), run),
{
    let init = run.drop_last();
    let s = ran(r, init);
    let after = pushed(s, id, entry);
    let noise = noise_of(init);
    assert(!s.completed.contains(id)) by {
        if s.completed.contains(id) {
            newest_is_drawn(calls_of(init), r.cap_calls, id);
        }
    }
    assert(s.holds(id) == noise.contains(id));
    if noise.contains(id) {
        assert(noise.insert(id) =~= noise);
    }
    pushed_facts(s, id, entry);
    pushed_with_room(s, id, entry);
    a_captured_message_is_read_back(s, id, entry);
    assert forall|x: Seq<char>| #[trigger] noise_of(run).contains(x) implies after.holds(x)
        && pending(after.trace(x), false) by {
        if x != id {
            assert(noise.contains(x));
            touched_keeps(s.traces, id, entry, s.cap_messages, x);
        }
    }
    assert forall|x: Seq<char>| #[trigger] after.holds(x) implies noise_of(run).contains(x)
        || after.completed.contains(x) by {
        if x != id {
            touched_keeps(s.traces, id, entry, s.cap_messages, x);
            assert(s.holds(x));
        }
    }
}

proof fn a_call_is_accounted(r: RingView, run: Seq<Traffic>, id: Seq<char>, entry: SipMessageEntry)
    requires
        run.len() > 0,
        run.last() == (Traffic::Call { id, entry }),
        accounted(r, ran(r, run.drop_last()), run.drop_last()),
        r.cap_calls > 0,
        !calls_of(run.drop_last()).contains(id),
        !noise_of(run).contains(id),
        noise_of(run).len() < MAX_PENDING,
    ensures
        accounted(r, ran(r, run), run),
{
    let init = run.drop_last();
    let s = ran(r, init);
    let mid = pushed(s, id, entry);
    let after = completed(mid, id);
    let noise = noise_of(init);
    assert(!s.completed.contains(id)) by {
        if s.completed.contains(id) {
            newest_is_drawn(calls_of(init), r.cap_calls, id);
        }
    }
    assert(!s.holds(id));
    pushed_facts(s, id, entry);
    pushed_with_room(s, id, entry);
    a_captured_message_is_read_back(s, id, entry);
    completed_facts(mid, id);
    assert(newest(newest(calls_of(init), r.cap_calls).push(id), r.cap_calls) =~= newest(
        calls_of(init).push(id),
        r.cap_calls,
    ));
    assert forall|x: Seq<char>| #[trigger] noise_of(run).contains(x) implies after.holds(x)
        && pending(after.trace(x), false) by {
        assert(noise.contains(x));
        touched_keeps(s.traces, id, entry, s.cap_messages, x);
        completing_keeps_pending_traces(mid, id, x);
    }
    assert forall|x: Seq<char>| #[trigger] after.holds(x) implies noise_of(run).contains(x)
        || after.completed.contains(x) by {
        position_facts(after.traces, x);
        if after.trace(x).completed {
            assert(after.completed.contains(after.traces[position(after.traces, x)].id));
        } else {
            pending_was_pending(mid, id, x);
            if x == id {
                completing_releases_the_live_slot(mid, id);
            } else {
                touched_keeps(s.traces, id, entry, s.cap_messages, x);
                assert(s.holds(x));
                if s.completed.contains(x) {
                    let k = choose|k: int| 0 <= k < s.completed.len() && s.completed[k] == x;
                    assert(s.traces[position(s.traces, s.completed[k])].completed);
                }
            }
        }
    }
}

proof fn a_run_is_accounted(r: RingView, run: Seq<Traffic>)
    requires
        r.wf(),
        r.cap_calls > 0,
        r.traces.len() == 0,
        calls_of(run).no_duplicates(),
        forall|k: int| 0 <= k < calls_of(run).len() ==> !noise_of(run).contains(
            #[trigger] calls_of(run)[k],
        ),
        noise_of(run).finite(),
        noise_of(run).len() < MAX_PENDING,
    ensures
        accounted(r, ran(r, run), run),
    decreases run.len(),
{
    if run.len() == 0 {
        if r.completed.len() > 0 {
            let i = position(r.traces, r.completed[0]);
            assert(i < r.traces.len());
        }
        assert(newest(calls_of(run), r.cap_calls) =~= r.completed);
    } else {
        let init = run.drop_last();
        noise_is_finite(init);
        match run.last() {
            Traffic::Noise { id, entry } => {
                assert forall|k: int| 0 <= k < calls_of(init).len() implies !noise_of(
                    init,
                ).contains(#[trigger] calls_of(init)[k]) by {
                    assert(!noise_of(run).contains(calls_of(run)[k]));
                }
                a_run_is_accounted(r, init);
                assert(!calls_of(run).contains(id)) by {
                    assert(noise_of(run).contains(id));
                }
                noise_is_accounted(r, run, id, entry);
            },
            Traffic::Call { id, entry } => {
                let c = calls_of(init);
                assert forall|a: int, b: int|
                    0 <= a < c.len() && 0 <= b < c.len() && a != b implies c[a] != c[b] by {
                    assert(calls_of(run)[a] == c[a] && calls_of(run)[b] == c[b]);
                }
                assert forall|k: int| 0 <= k < c.len() implies !noise_of(init).contains(
                    #[trigger] c[k],
                ) by {
                    assert(calls_of(run)[k] == c[k]);
                }
                a_run_is_accounted(r, init);
                assert(calls_of(run)[c.len() as int] == id);
                assert(!c.contains(id)) by {
                    if c.contains(id) {
                        let k = choose|k: int| 0 <= k < c.len() && c[k] == id;
                        assert(calls_of(run)[k] == id);
                    }
                }
                a_call_is_accounted(r, run, id, entry);
            },
        }
    }
}

proof fn noise_is_finite(run: Seq<Traffic>)
    ensures
        noise_of(run).finite(),
    decreases run.len(),
{
    if run.len() > 0 {
        noise_is_finite(run.drop_last());
    }
}

/// Whole calls leave the completed window oldest first: on a ring that starts out
/// empty, after any number of calls among less noise than its cap, exactly the calls
/// completed last keep their trace, as many as the window is wide. The noise keeps
/// its traces, and completing what is completed, or what has no trace, changes
/// nothing.
pub proof fn the_window_keeps_the_calls_completed_last(r: RingView, run: Seq<Traffic>)
    requires
        r.wf(),
        r.cap_calls > 0,
        r.traces.len() == 0,
        calls_of(run).no_duplicates(),
        forall|k: int| 0 <= k < calls_of(run).len() ==> !noise_of(run).contains(
            #[trigger] calls_of(run)[k],
        ),
        noise_of(run).len() < MAX_PENDING,
    ensures
        ({
            let after = ran(r, run);
            let calls = calls_of(run);
            &&& after.wf()
            &&& forall|i: int|
                0 <= i < calls.len() ==> (after.holds(#[trigger] calls[i]) <==> i >= calls.len()
                    - r.cap_calls)
            &&& forall|x: Seq<char>| #[trigger] noise_of(run).contains(x) ==> after.holds(x)
            &&& forall|x: Seq<char>|
                !after.holds(x) || after.trace(x).completed ==> #[trigger] completed(after, x)
                    == after
        }),
{
    noise_is_finite(run);
    a_run_is_accounted(r, run);
    let after = ran(r, run);
    let calls = calls_of(run);
    let window = newest(calls, r.cap_calls);
    let skipped = calls.len() - window.len();
    assert forall|i: int| 0 <= i < calls.len() implies (after.holds(#[trigger] calls[i]) <==> i
        >= calls.len() - r.cap_calls) by {
        if after.holds(calls[i]) {
            assert(after.completed.contains(calls[i]));
            let k = choose|k: int| 0 <= k < window.len() && window[k] == calls[i];
            assert(calls[skipped + k] == calls[i]);
        }
        if i >= calls.len() - r.cap_calls {
            assert(window[i - skipped] == calls[i]);
            let q = position(after.traces, after.completed[i - skipped]);
            assert(q < after.traces.len());
        }
    }
}

// ---- The packet sink that feeds the ring ----

/// The text of `bytes` with every invalid UTF-8 sequence replaced.
pub uninterp spec fn lossy_text(bytes: Seq<u8>) -> Seq<char>;

/// `String::from_utf8_lossy`: valid UTF-8 is decoded as it stands; how an invalid
/// sequence is replaced is not spelled out.
#[verifier::external_body]
fn decode_lossy(bytes: &[u8]) -> (r: String)
    ensures
        r@ == lossy_text(bytes@),
        vstd::utf8::valid_utf8(bytes@) ==> r@ == vstd::utf8::decode_utf8(bytes@),
{
    String::from_utf8_lossy(bytes).into_owned()
}

/// Feeds the ring from the packet stream, and knows which addresses are ours.
pub struct SipRingSink {
    /// The configured public address, and the bind address when it is no wildcard.
    local_ips: Vec<IpAddr>,
    /// The SIP listener's port, for the tie when both ends are ours.
    local_port: u16,
}

/// Which way a message went, given whether each end is ours.
pub open spec fn direction_of(
    src_local: bool,
    dst_local: bool,
    src_port: u16,
    dst_port: u16,
    local_port: u16,
) -> Seq<char> {
    if src_local && !dst_local {
        "out"@
    } else if !src_local && dst_local {
        "in"@
    } else if src_local && dst_local && src_port == local_port {
        "out"@
    } else if src_local && dst_local && dst_port == local_port {
        "in"@
    } else {
        "unknown"@
    }
}

impl SipRingSink {
    pub closed spec fn spec_local_ips(self) -> Seq<IpAddr> {
        self.local_ips@
    }

    pub closed spec fn spec_local_port(self) -> u16 {
        self.local_port
    }

    /// One of ours: a configured address, or the wildcard that stamps our end of
    /// a packet on a wildcard bind.
    pub open spec fn ours(self, ip: IpAddr) -> bool {
        ip.unspecified() || self.spec_local_ips().contains(ip)
    }

    /// The direction of `packet` as this node sees it.
    pub open spec fn direction_spec(self, packet: HepPacket) -> Seq<char> {
        direction_of(
            self.ours(packet.src.ip),
            self.ours(packet.dst.ip),
            packet.src.port,
            packet.dst.port,
            self.spec_local_port(),
        )
    }

    /// The ring entry made of `packet`.
    pub open spec fn entry_of(self, packet: HepPacket, e: SipMessageEntry) -> bool {
        &&& e.ts_ms == packet.timestamp_ms
        &&& e.direction@ == self.direction_spec(packet)
        &&& e.src == packet.src.text
        &&& e.dst == packet.dst.text
        &&& e.payload@ == lossy_text(packet.payload@)
    }

    pub fn new(local_ips: Vec<IpAddr>, local_port: u16) -> (r: Self)
        ensures
            r.spec_local_ips() == local_ips@,
            r.spec_local_port() == local_port,
    {
        SipRingSink { local_ips, local_port }
    }

    /// Is this address one of ours?
    pub fn is_local(&self, ip: IpAddr) -> (r: bool)
        ensures
            r == self.ours(ip),
    {
        ip.is_unspecified() || contains_ip(&self.local_ips, ip)
    }

    /// `"out"` when the message left us, `"in"` when it arrived, `"unknown"` when
    /// neither end is recognisably this node. Ports break the tie only when both
    /// ends are ours.
    pub fn direction(&self, packet: &HepPacket) -> (r: &'static str)
        ensures
            r@ == self.direction_spec(*packet),
    {
        let src_local = self.is_local(packet.src.ip);
        let dst_local = self.is_local(packet.dst.ip);
        match (src_local, dst_local) {
            (true, false) => "out",
            (false, true) => "in",
            (true, true) => if packet.src.port == self.local_port {
                "out"
            } else if packet.dst.port == self.local_port {
                "in"
            } else {
                "unknown"
            },
            (false, false) => "unknown",
        }
    }

    /// Offer one packet. Only SIP with a `Call-ID` is captured.
    pub fn send(&self, ring: &mut SipRing, packet: HepPacket) -> (r: Option<PushReport>)
        requires
            old(ring)@.wf(),
        ensures
            final(ring)@.wf(),
            r is Some == (packet.protocol == HepProtocol::Sip && packet.correlation_id is Some),
            r is None ==> final(ring)@ == old(ring)@,
            r is Some ==> exists|e: SipMessageEntry| #[trigger]
                self.entry_of(packet, e) && final(ring)@ == pushed(
                    old(ring)@,
                    packet.correlation_id->0@,
                    e,
                ),
    {
        if packet.protocol != HepProtocol::Sip {
            return None;
        }
        let direction = self.direction(&packet).to_owned();
        match &packet.correlation_id {
            None => None,
            Some(call_id) => {
                let entry = SipMessageEntry {
                    ts_ms: packet.timestamp_ms,
                    direction,
                    src: packet.src.text.clone(),
                    dst: packet.dst.text.clone(),
                    payload: decode_lossy(packet.payload.as_slice()),
                };
                assert(self.entry_of(packet, entry));
                Some(push(ring, call_id.as_str(), entry))
            },
        }
    }
}

// ---- What is promised of every call ----

/// A captured message is the last one that is read of its dialog, behind those that were
/// read before; only the oldest of them goes, only at the cap, and the reader is told. A
/// ring that is off captures nothing.
pub proof fn a_captured_message_is_read_last(
    ring: &mut SipRing,
    id: &str,
    e: SipMessageEntry,
    report: PushReport,
    before: SipRing,
    was: Option<(Vec<SipMessageEntry>, bool)>,
    after: SipRing,
    is: Option<(Vec<SipMessageEntry>, bool)>,
    on: bool,
)
    requires
        old(ring)@.wf(),
        call_ensures(push, (ring, id, e), report),
        before == *old(ring),
        after == *final(ring),
        call_ensures(snapshot, (&before, id), was),
        call_ensures(snapshot, (&after, id), is),
        call_ensures(is_enabled, (&before,), on),
    ensures
        report.captured == on,
        !on ==> is is None && !report.dropped_call_cap,
        on ==> {
            let held = if was is Some {
                (was->0).0@
            } else {
                Seq::empty()
            };
            let cap = before@.cap_messages;
            &&& is is Some
            &&& held.len() < cap ==> (is->0).0@ == held.push(e) && !report.dropped_call_cap
            &&& held.len() >= cap ==> (is->0).0@ == held.skip(1).push(e)
                && report.dropped_call_cap
            &&& (is->0).1 <==> held.len() >= cap || (was is Some && (was->0).1)
        },
{
    let r = before@;
    position_facts(r.traces, id@);
    if on {
        a_captured_message_is_read_back(r, id@, e);
        if r.holds(id@) {
            let m = r.trace(id@).messages;
            assert(r.traces[position(r.traces, id@)].messages.len() <= r.cap_messages);
            if m.len() >= r.cap_messages {
                assert(m.drop_first() =~= m.skip(1));
            }
        }
    } else {
        assert(!r.holds(id@));
    }
}

/// A message of one dialog changes nothing of another: not of a call in progress or of a
/// completed one, and not of the noise either while there are fewer than 256 dialogs of it.
pub proof fn dialogs_are_captured_apart(
    ring: &mut SipRing,
    id: &str,
    e: SipMessageEntry,
    report: PushReport,
    before: SipRing,
    after: SipRing,
    other: &str,
    was: Option<(Vec<SipMessageEntry>, bool)>,
    is: Option<(Vec<SipMessageEntry>, bool)>,
    noise: usize,
)
    requires
        old(ring)@.wf(),
        call_ensures(push, (ring, id, e), report),
        before == *old(ring),
        after == *final(ring),
        other@ != id@,
        call_ensures(snapshot, (&before, other), was),
        call_ensures(snapshot, (&after, other), is),
        call_ensures(SipRing::pending_count, (&before, false), noise),
    ensures
        was is None ==> is is None,
        was is Some && (noise < 256 || before@.trace(other@).live || before@.trace(
            other@,
        ).completed) ==> is is Some && (is->0).0@ == (was->0).0@ && (is->0).1 == (was->0).1,
        noise < 256 ==> report.dropped_trace_cap == 0,
{
    let r = before@;
    if r.cap_calls > 0 {
        let ts = touched(r.traces, id@, e, r.cap_messages);
        touched_keeps(r.traces, id@, e, r.cap_messages, other@);
        touched_facts(r.traces, r.completed, r.cap_messages, id@, e);
        bounded_facts(ts, r.completed, r.cap_messages, false, MAX_PENDING as nat);
        let t1 = bounded(ts, false, MAX_PENDING as nat);
        if r.holds(other@) && !pending(r.trace(other@), false) {
            bounded_keeps(ts, false, MAX_PENDING as nat, other@);
        }
        if !r.holds(other@) {
            position_facts(ts, other@);
            position_facts(t1, other@);
            first_pending_facts(ts, false);
            let q = position(t1, other@);
            if q < t1.len() {
                members_survive(ts, t1, q);
                let j = choose|j: int| 0 <= j < ts.len() && ts[j] == t1[q];
                assert(ts[j].id == other@);
                position_of_member(ts, j);
            }
        }
    }
}

/// A completed call is read as before, and so is every call in progress and all the noise;
/// completing one that is completed already, or that has no trace, does nothing.
pub proof fn a_completed_call_is_still_read(
    ring: &mut SipRing,
    id: &str,
    done: bool,
    before: SipRing,
    after: SipRing,
    other: &str,
    was: Option<(Vec<SipMessageEntry>, bool)>,
    is: Option<(Vec<SipMessageEntry>, bool)>,
)
    requires
        old(ring)@.wf(),
        call_ensures(complete, (ring, id), done),
        before == *old(ring),
        after == *final(ring),
        call_ensures(snapshot, (&before, other), was),
        call_ensures(snapshot, (&after, other), is),
    ensures
        other@ == id@ ==> (is is Some <==> was is Some),
        other@ == id@ && was is Some ==> (is->0).0@ == (was->0).0@ && (is->0).1 == (was->0).1,
        other@ == id@ && was is Some ==> after@.trace(other@).completed && !(done
            && before@.trace(other@).completed),
        !done || (was is Some && !before@.trace(other@).completed) ==> (is is Some <==> was
            is Some) && (was is Some ==> (is->0).0@ == (was->0).0@ && (is->0).1 == (was->0).1),
        other@ == id@ && was is None ==> !done,
{
    let r = before@;
    position_facts(r.traces, id@);
    position_facts(r.traces, other@);
    if done {
        completing_releases_the_live_slot(r, id@);
        if other@ != id@ && r.holds(other@) && !r.trace(other@).completed {
            completing_keeps_pending_traces(r, id@, other@);
        }
    }
}

/// Marking a call live keeps what is read of it while fewer than 512 calls are in progress,
/// and marking a dialog that has no trace makes none.
pub proof fn a_call_marked_live_is_still_read(
    ring: &mut SipRing,
    id: &str,
    dropped: usize,
    before: SipRing,
    after: SipRing,
    was: Option<(Vec<SipMessageEntry>, bool)>,
    is: Option<(Vec<SipMessageEntry>, bool)>,
    live: usize,
)
    requires
        old(ring)@.wf(),
        call_ensures(mark_live, (ring, id), dropped),
        before == *old(ring),
        after == *final(ring),
        call_ensures(snapshot, (&before, id), was),
        call_ensures(snapshot, (&after, id), is),
        call_ensures(SipRing::pending_count, (&before, true), live),
    ensures
        was is None ==> is is None && dropped == 0,
        was is Some && live < 512 ==> {
            &&& is is Some
            &&& (is->0).0@ == (was->0).0@
            &&& (is->0).1 == (was->0).1
            &&& after@.trace(id@).live
            &&& dropped == 0
        },
{
    let r = before@;
    position_facts(r.traces, id@);
    if r.cap_calls > 0 {
        let i = position(r.traces, id@);
        if i < r.traces.len() {
            if live < 512 {
                let t = TraceView { live: true, ..r.traces[i] };
                let ts = r.traces.update(i, t);
                relabel_facts(r.traces, r.completed, r.cap_messages, i, t);
                population_update(r.traces, i, t, false);
                population_update(r.traces, i, t, true);
                both_bounded_is_identity(ts);
                position_congruent(r.traces, ts, id@);
            }
        } else {
            both_bounded_is_identity(r.traces);
        }
    }
}

/// A ring that is turned off holds nothing and captures nothing. One that is resized keeps,
/// of each call in progress and of the noise, as many of the newest messages as the new cap
/// has room for, never fewer than one; and it holds no dialog that it did not hold.
pub proof fn a_resized_ring_keeps_the_newest_messages(
    ring: &mut SipRing,
    cap_calls: usize,
    cap_messages: usize,
    before: SipRing,
    after: SipRing,
    id: &str,
    was: Option<(Vec<SipMessageEntry>, bool)>,
    is: Option<(Vec<SipMessageEntry>, bool)>,
    on: bool,
    n: usize,
    i: int,
)
    requires
        old(ring)@.wf(),
        call_ensures(set_capacity, (ring, cap_calls, cap_messages), ()),
        before == *old(ring),
        after == *final(ring),
        call_ensures(snapshot, (&before, id), was),
        call_ensures(snapshot, (&after, id), is),
        call_ensures(is_enabled, (&after,), on),
        call_ensures(SipRing::trace_count, (&after,), n),
    ensures
        on <==> cap_calls > 0,
        cap_calls == 0 ==> is is None && n == 0,
        after@.cap_messages == (if cap_messages == 0 {
            1
        } else {
            cap_messages as nat
        }),
        cap_calls > 0 && was is Some && !before@.trace(id@).completed ==> {
            let a = (is->0).0@;
            let b = (was->0).0@;
            let cap = after@.cap_messages;
            &&& is is Some
            &&& b.len() <= cap ==> a.len() == b.len() && (is->0).1 == (was->0).1
            &&& b.len() > cap ==> a.len() == cap && (is->0).1
            &&& 0 <= i < a.len() ==> a[a.len() - 1 - i] == b[b.len() - 1 - i]
        },
{
    let r = before@;
    if cap_calls > 0 {
        let cap = after@.cap_messages;
        let ts = within_window(r.traces, r.completed, cap_calls as nat);
        let all = Seq::new(ts.len(), |k: int| shortened(ts[k], cap));
        assert(after@.traces == all);
        position_facts(r.traces, id@);
        position_congruent(ts, all, id@);
        position_facts(ts, id@);
        if r.holds(id@) && !r.trace(id@).completed {
            assert forall|k: int| 0 <= k < r.completed.len() - cap_calls implies r.completed[k]
                != id@ by {
                let p = position(r.traces, r.completed[k]);
                assert(r.traces[p].completed);
            }
            within_window_keeps(
                r.traces,
                r.completed,
                r.cap_messages,
                cap_calls as nat,
                id@,
            );
        }
    } else {
        assert(after@.traces.len() == 0);
    }
}

/// A packet left this node when its source is ours and its destination is not, and came in
/// the other way round; where both are ours the port of the listener tells, the source's
/// first. Ours are the configured addresses and the wildcards.
pub proof fn a_packet_goes_where_its_ends_say(
    sink: &SipRingSink,
    packet: &HepPacket,
    src: bool,
    dst: bool,
    r: &'static str,
    i: int,
)
    requires
        call_ensures(SipRingSink::is_local, (sink, packet.src.ip), src),
        call_ensures(SipRingSink::is_local, (sink, packet.dst.ip), dst),
        call_ensures(SipRingSink::direction, (sink, packet), r),
    ensures
        packet.src.ip == IpAddr::V4(0) || packet.src.ip == IpAddr::V6(0) ==> src,
        0 <= i < sink.spec_local_ips().len() && sink.spec_local_ips()[i] == packet.src.ip ==> src,
        src ==> packet.src.ip == IpAddr::V4(0) || packet.src.ip == IpAddr::V6(0) || exists|k: int|
            0 <= k < sink.spec_local_ips().len() && sink.spec_local_ips()[k] == packet.src.ip,
        src && !dst ==> r@ == "out"@,
        !src && dst ==> r@ == "in"@,
        !src && !dst ==> r@ == "unknown"@,
        src && dst && packet.src.port == sink.spec_local_port() ==> r@ == "out"@,
        src && dst && packet.src.port != sink.spec_local_port() && packet.dst.port
            == sink.spec_local_port() ==> r@ == "in"@,
        src && dst && packet.src.port != sink.spec_local_port() && packet.dst.port
            != sink.spec_local_port() ==> r@ == "unknown"@,
{
}

/// A SIP packet with a `Call-ID` is read last of that dialog, with its time, its ends, its
/// direction and its text; every other packet leaves the ring as it was.
pub proof fn a_sip_packet_is_read_last(
    sink: &SipRingSink,
    ring: &mut SipRing,
    packet: HepPacket,
    report: Option<PushReport>,
    direction: &'static str,
    after: SipRing,
    id: &str,
    is: Option<(Vec<SipMessageEntry>, bool)>,
)
    requires
        old(ring)@.wf(),
        call_ensures(SipRingSink::send, (sink, ring, packet), report),
        call_ensures(SipRingSink::direction, (sink, &packet), direction),
        after == *final(ring),
        packet.correlation_id is Some ==> id@ == packet.correlation_id->0@,
        call_ensures(snapshot, (&after, id), is),
    ensures
        report is Some <==> packet.protocol is Sip && packet.correlation_id is Some,
        report is None ==> final(ring)@ == old(ring)@,
        report is Some && old(ring)@.cap_calls > 0 ==> {
            let m = (is->0).0@;
            &&& is is Some && m.len() > 0
            &&& m[m.len() - 1].ts_ms == packet.timestamp_ms
            &&& m[m.len() - 1].direction@ == direction@
            &&& m[m.len() - 1].src == packet.src.text
            &&& m[m.len() - 1].dst == packet.dst.text
            &&& m[m.len() - 1].payload@ == lossy_text(packet.payload@)
        },
{
    if report is Some && old(ring)@.cap_calls > 0 {
        let e = choose|e: SipMessageEntry| #[trigger]
            sink.entry_of(packet, e) && final(ring)@ == pushed(
                old(ring)@,
                packet.correlation_id->0@,
                e,
            );
        a_captured_message_is_read_back(old(ring)@, id@, e);
    }
}

/// A capture is counted once, a message that the cap of its call took once, and each trace
/// that made room once, each under its own label and nothing else.
pub proof fn each_capture_is_counted_under_its_label(
    report: &PushReport,
    r: Vec<(&'static str, u64)>,
    dropped: usize,
    d: Vec<(&'static str, u64)>,
    i: int,
)
    requires
        call_ensures(PushReport::counts, (report,), r),
        call_ensures(eviction_counts, (dropped,), d),
    ensures
        d@.len() == (if dropped > 0 {
            1nat
        } else {
            0
        }),
        dropped > 0 ==> d@[0].0@ == "dropped_trace_cap"@ && d@[0].1 == dropped,
        r@.len() == (if report.dropped_call_cap {
            1int
        } else {
            0
        }) + (if report.captured {
            1int
        } else {
            0
        }) + (if report.dropped_trace_cap > 0 {
            1int
        } else {
            0
        }),
        report.dropped_call_cap ==> r@[0].0@ == "dropped_call_cap"@ && r@[0].1 == 1,
        report.captured ==> exists|k: int|
            0 <= k < r@.len() && (#[trigger] r@[k]).0@ == "captured"@ && r@[k].1 == 1,
        report.dropped_trace_cap > 0 ==> r@[r@.len() - 1].0@ == "dropped_trace_cap"@ && r@[r@.len()
            - 1].1 == report.dropped_trace_cap,
{
    let g = label_views(r@);
    assert(g.len() == r@.len());
    assert(label_views(d@).len() == d@.len());
    if dropped > 0 {
        assert(label_views(d@)[0] == (d@[0].0@, d@[0].1));
    }
    if report.dropped_call_cap {
        assert(g[0] == (r@[0].0@, r@[0].1));
    }
    if report.captured {
        let k: int = if report.dropped_call_cap {
            1
        } else {
            0
        };
        assert(g[k] == (r@[k].0@, r@[k].1));
    }
    if report.dropped_trace_cap > 0 {
        assert(g[r@.len() - 1] == (r@[r@.len() - 1].0@, r@[r@.len() - 1].1));
    }
}

/// A new ring has room for fifty completed calls and 64 messages of each, and holds none.
pub proof fn a_new_ring_has_room(r: SipRing, n: usize, on: bool)
    requires
        call_ensures(SipRing::new, (), r),
        call_ensures(SipRing::trace_count, (&r,), n),
        call_ensures(is_enabled, (&r,), on),
    ensures
        n == 0,
        on,
        r@.cap_calls == 50,
        r@.cap_messages == 64,
{
}

} // verus!
