//! Recent warnings and errors: what an operator sees without shell access.
use vstd::prelude::*;

use crate::telemetry::ring::{a_run_leaves_the_newest, after_run, newest, BoundedRing};
use crate::text::trim_end_of;

verus! {

/// Default ring capacity.
pub const DEFAULT_CAPACITY: usize = 256;

/// One captured warning or error.
#[derive(Debug)]
pub struct ErrorEntry {
    /// Milliseconds since the Unix epoch.
    pub ts_ms: u64,
    pub level: String,
    pub target: String,
    pub message: String,
    pub call_id: Option<String>,
}

impl Clone for ErrorEntry {
    fn clone(&self) -> (r: Self)
        ensures
            r == *self,
    {
        ErrorEntry {
            ts_ms: self.ts_ms,
            level: self.level.clone(),
            target: self.target.clone(),
            message: self.message.clone(),
            call_id: self.call_id.clone(),
        }
    }
}

/// The recent-errors ring.
pub struct ErrorRing {
    ring: BoundedRing<ErrorEntry>,
}

impl ErrorRing {
    pub closed spec fn capacity(self) -> nat {
        self.ring.capacity()
    }

    /// The entries held, oldest first.
    pub closed spec fn entries(self) -> Seq<ErrorEntry> {
        self.ring.entries()
    }

    pub open spec fn wf(self) -> bool {
        self.entries().len() <= self.capacity()
    }

    /// An empty ring of the default capacity.
    pub fn new() -> (r: Self)
        ensures
            r.wf(),
            r.capacity() == DEFAULT_CAPACITY,
            r.entries().len() == 0,
    {
        ErrorRing { ring: BoundedRing::new(DEFAULT_CAPACITY) }
    }
}

/// Resize the ring. `0` turns capture off; shrinking drops the oldest entries.
pub fn set_capacity(ring: &mut ErrorRing, cap: usize)
    requires
        old(ring).wf(),
    ensures
        final(ring).wf(),
        final(ring).capacity() == cap,
        final(ring).entries() == newest(old(ring).entries(), cap as nat),
{
    ring.ring.set_capacity(cap);
}

/// Drop every entry held; the capacity stays.
pub fn clear(ring: &mut ErrorRing)
    ensures
        final(ring).wf(),
        final(ring).capacity() == old(ring).capacity(),
        final(ring).entries().len() == 0,
{
    ring.ring.clear();
}

/// Append one entry.
pub fn push(ring: &mut ErrorRing, entry: ErrorEntry)
    requires
        old(ring).wf(),
    ensures
        final(ring).wf(),
        final(ring).capacity() == old(ring).capacity(),
        final(ring).entries() == newest(old(ring).entries().push(entry), old(ring).capacity()),
{
    ring.ring.push(entry);
}

/// The entries held, newest first.
pub fn snapshot(ring: &ErrorRing) -> (r: Vec<ErrorEntry>)
    ensures
        r@ == ring.entries().reverse(),
{
    let r = ring.ring.snapshot();
    assert(r@ =~= ring.entries().reverse());
    r
}

/// Severity of a log event, most severe first.
#[derive(Debug, Clone, Copy, PartialEq, Eq, Structural)]
pub enum Level {
    Error,
    Warn,
    Info,
    Debug,
    Trace,
}

/// One log event, as the capture layer collected it.
#[derive(Debug)]
pub struct CapturedEvent {
    pub level: Level,
    pub target: String,
    /// The event's message.
    pub message: String,
    /// The other fields, each as `name=value` and a space.
    pub fields: String,
    /// The event's own `call_id` field.
    pub call_id: Option<String>,
    /// The `call_id`s recorded on the enclosing spans, nearest first; `None` for a
    /// span without one.
    pub span_call_ids: Vec<Option<String>>,
}

/// The message an entry shows: the event's, then its fields.
pub open spec fn shown_message(message: Seq<char>, fields: Seq<char>) -> Seq<char> {
    if fields.len() == 0 {
        message
    } else if message.len() == 0 {
        trim_end_of(fields)
    } else {
        message.push(' ') + trim_end_of(fields)
    }
}

/// The first id among the spans.
pub open spec fn nearest_id(ids: Seq<Option<String>>) -> Option<String>
    decreases ids.len(),
{
    if ids.len() == 0 {
        None
    } else if ids[0] is Some {
        ids[0]
    } else {
        nearest_id(ids.drop_first())
    }
}

/// Whether the layer captures events of this severity.
pub open spec fn captures(level: Level) -> bool {
    level == Level::Error || level == Level::Warn
}

/// The capture layer.
#[derive(Debug, Clone, Copy)]
pub struct ErrorRingLayer;

impl ErrorRingLayer {
    /// The level label of a captured event; `None` when the event is not captured.
    pub fn label(level: Level) -> (r: Option<&'static str>)
        ensures
            match r {
                Some(l) => captures(level) && l@ == (if level == Level::Error {
                    "error"@
                } else {
                    "warn"@
                }),
                None => !captures(level),
            },
    {
        match level {
            Level::Error => Some("error"),
            Level::Warn => Some("warn"),
            _ => None,
        }
    }

    /// Capture one event at `ts_ms`. Warnings and errors become an entry stamped
    /// with the event's own call id, or else the nearest enclosing span's; anything
    /// less severe leaves the ring as it was. Returns the level label that was
    /// counted.
    pub fn on_event(ring: &mut ErrorRing, event: CapturedEvent, ts_ms: u64) -> (r: Option<
        &'static str,
    >)
        requires
            old(ring).wf(),
        ensures
            final(ring).wf(),
            final(ring).capacity() == old(ring).capacity(),
            r is Some == captures(event.level),
            !captures(event.level) ==> final(ring).entries() == old(ring).entries(),
            captures(event.level) ==> r->0@ == (if event.level == Level::Error {
                "error"@
            } else {
                "warn"@
            }) && exists|e: ErrorEntry| #[trigger]
                entry_of(event, ts_ms, e) && final(ring).entries() == newest(
                    old(ring).entries().push(e),
                    old(ring).capacity(),
                ),
    {
        let label = match Self::label(event.level) {
            Some(l) => l,
            None => return None,
        };
        let message = compose_message(event.message.as_str(), event.fields.as_str());
        let call_id = match &event.call_id {
            Some(id) => Some(id.clone()),
            None => first_id(&event.span_call_ids),
        };
        let entry = ErrorEntry {
            ts_ms,
            level: label.to_owned(),
            target: event.target.clone(),
            message,
            call_id,
        };
        assert(entry_of(event, ts_ms, entry));
        push(ring, entry);
        Some(label)
    }
}

/// `e` is what the layer makes of `event`.
pub open spec fn entry_of(event: CapturedEvent, ts_ms: u64, e: ErrorEntry) -> bool {
    &&& e.ts_ms == ts_ms
    &&& e.level@ == (if event.level == Level::Error {
        "error"@
    } else {
        "warn"@
    })
    &&& e.target == event.target
    &&& e.message@ == shown_message(event.message@, event.fields@)
    &&& e.call_id == (if event.call_id is Some {
        event.call_id
    } else {
        nearest_id(event.span_call_ids@)
    })
}

/// `fields` without trailing white space, appended to `message`.
fn compose_message(message: &str, fields: &str) -> (r: String)
    ensures
        r@ == shown_message(message@, fields@),
{
    let mut out = message.to_owned();
    if !fields.is_empty() {
        if !message.is_empty() {
            out.push(' ');
        }
        let v = crate::text::chars_of(fields);
        let mut j: usize = v.len();
        let ghost all = fields@;
        assert(all.subrange(0, all.len() as int) =~= all);
        while j > 0 && crate::text::char_is_space(v[j - 1])
            invariant
                v@ == all,
                j <= v@.len(),
                trim_end_of(all) == trim_end_of(all.subrange(0, j as int)),
            decreases j,
        {
            assert(all.subrange(0, j as int).drop_last() =~= all.subrange(0, j - 1));
            j -= 1;
        }
        let tail = crate::text::string_from(&v, 0, j);
        out.push_str(tail.as_str());
        assert(out@ =~= shown_message(message@, fields@));
    }
    out
}

fn first_id(ids: &Vec<Option<String>>) -> (r: Option<String>)
    ensures
        r == nearest_id(ids@),
{
    let mut i: usize = 0;
    assert(ids@.subrange(0, ids@.len() as int) =~= ids@);
    while i < ids.len()
        invariant
            i <= ids@.len(),
            nearest_id(ids@) == nearest_id(ids@.subrange(i as int, ids@.len() as int)),
        decreases ids@.len() - i,
    {
        if ids[i].is_some() {
            return ids[i].clone();
        }
        assert(ids@.subrange(i as int, ids@.len() as int).drop_first() =~= ids@.subrange(
            i + 1,
            ids@.len() as int,
        ));
        i += 1;
    }
    None
}

/// What a snapshot gives after any number of captures: the newest entries, those held
/// before and those captured, the last one first.
pub proof fn captured_events_are_read_back(before: Seq<ErrorEntry>, run: Seq<ErrorEntry>, cap: nat)
    requires
        before.len() <= cap,
    ensures
        after_run(before, run, cap).reverse() == newest(before + run, cap).reverse(),
        forall|i: int|
            0 <= i < run.len() && i < cap ==> #[trigger] after_run(before, run, cap).reverse()[i]
                == run[run.len() - 1 - i],
{
    a_run_leaves_the_newest(before, run, cap);
}

// ---- What is promised of every event ----

/// Warnings and errors are captured and served first, under their level, with their target
/// and time; their message is that of the event with its fields behind it; and they carry
/// the event's own call id or else that of the nearest span that has one. Everything else
/// leaves the ring as it was.
pub proof fn a_warning_is_served_first(
    ring: &mut ErrorRing,
    event: CapturedEvent,
    ts_ms: u64,
    r: Option<&'static str>,
    before: ErrorRing,
    was: Vec<ErrorEntry>,
    after: ErrorRing,
    is: Vec<ErrorEntry>,
    i: int,
    n: int,
)
    requires
        old(ring).wf(),
        call_ensures(ErrorRingLayer::on_event, (ring, event, ts_ms), r),
        before == *old(ring),
        after == *final(ring),
        call_ensures(snapshot, (&before,), was),
        call_ensures(snapshot, (&after,), is),
    ensures
        r is Some <==> event.level is Error || event.level is Warn,
        event.level is Error ==> r->0@ == "error"@,
        event.level is Warn ==> r->0@ == "warn"@,
        r is None ==> is@.len() == was@.len() && (0 <= i < is@.len() ==> is@[i] == was@[i]),
        r is Some && before.capacity() > 0 ==> {
            let e = is@[0];
            &&& is@.len() > 0
            &&& e.ts_ms == ts_ms
            &&& e.level@ == r->0@
            &&& e.target == event.target
            &&& event.fields@.len() == 0 ==> e.message@ == event.message@
            &&& event.fields@.len() > 0 && event.message@.len() == 0 ==> e.message@ == trim_end_of(
                event.fields@,
            )
            &&& event.fields@.len() > 0 && event.message@.len() > 0 ==> e.message@
                == event.message@ + seq![' '] + trim_end_of(event.fields@)
            &&& event.call_id is Some ==> e.call_id == event.call_id
            &&& event.call_id is None && 0 <= n < event.span_call_ids@.len()
                && event.span_call_ids@[n] is Some && (forall|k: int|
                0 <= k < n ==> (#[trigger] event.span_call_ids@[k]) is None) ==> e.call_id
                == event.span_call_ids@[n]
            &&& event.call_id is None && (forall|k: int|
                0 <= k < event.span_call_ids@.len() ==> (#[trigger] event.span_call_ids@[k])
                    is None) ==> e.call_id is None
            &&& 0 <= i < is@.len() - 1 ==> is@[i + 1] == was@[i]
            &&& was@.len() < before.capacity() ==> is@.len() == was@.len() + 1
            &&& was@.len() == before.capacity() ==> is@.len() == was@.len()
        },
{
    let ids = event.span_call_ids@;
    if 0 <= n < ids.len() && ids[n] is Some && (forall|k: int|
        0 <= k < n ==> (#[trigger] ids[k]) is None) {
        the_first_id_is_the_nearest(ids, n);
    }
    if forall|k: int| 0 <= k < ids.len() ==> (#[trigger] ids[k]) is None {
        without_ids_there_is_none(ids);
    }
    if r is Some && before.capacity() > 0 {
        let e = choose|e: ErrorEntry| #[trigger]
            entry_of(event, ts_ms, e) && after.entries() == newest(
                before.entries().push(e),
                before.capacity(),
            );
        assert(is@[0] == e);
        assert(event.message@.push(' ') =~= event.message@ + seq![' ']);
    }
}

proof fn the_first_id_is_the_nearest(ids: Seq<Option<String>>, n: int)
    requires
        0 <= n < ids.len(),
        ids[n] is Some,
        forall|k: int| 0 <= k < n ==> (#[trigger] ids[k]) is None,
    ensures
        nearest_id(ids) == ids[n],
    decreases n,
{
    if n > 0 {
        assert(ids[0] is None);
        let rest = ids.drop_first();
        assert forall|k: int| 0 <= k < n - 1 implies (#[trigger] rest[k]) is None by {
            assert(rest[k] == ids[k + 1]);
        }
        the_first_id_is_the_nearest(rest, n - 1);
    }
}

proof fn without_ids_there_is_none(ids: Seq<Option<String>>)
    requires
        forall|k: int| 0 <= k < ids.len() ==> (#[trigger] ids[k]) is None,
    ensures
        nearest_id(ids) is None,
    decreases ids.len(),
{
    if ids.len() > 0 {
        assert(ids[0] is None);
        let rest = ids.drop_first();
        assert forall|k: int| 0 <= k < rest.len() implies (#[trigger] rest[k]) is None by {
            assert(rest[k] == ids[k + 1]);
        }
        without_ids_there_is_none(rest);
    }
}

/// A pushed entry is served first and the others behind it, in their order.
pub proof fn the_last_entry_is_served_first(
    ring: &mut ErrorRing,
    entry: ErrorEntry,
    before: ErrorRing,
    was: Vec<ErrorEntry>,
    after: ErrorRing,
    is: Vec<ErrorEntry>,
    i: int,
)
    requires
        old(ring).wf(),
        call_ensures(push, (ring, entry), ()),
        before == *old(ring),
        after == *final(ring),
        call_ensures(snapshot, (&before,), was),
        call_ensures(snapshot, (&after,), is),
    ensures
        before.capacity() == 0 ==> is@.len() == 0,
        before.capacity() > 0 ==> {
            &&& is@.len() > 0 && is@[0] == entry
            &&& was@.len() < before.capacity() ==> is@.len() == was@.len() + 1
            &&& was@.len() == before.capacity() ==> is@.len() == was@.len()
            &&& 0 <= i < is@.len() - 1 ==> is@[i + 1] == was@[i]
        },
{
}

/// A new capacity serves as many of the newest entries as it has room for; a cleared ring
/// serves none, and neither does a new one, which has room for 256.
pub proof fn a_new_capacity_serves_the_newest(
    ring: &mut ErrorRing,
    cap: usize,
    before: ErrorRing,
    was: Vec<ErrorEntry>,
    after: ErrorRing,
    is: Vec<ErrorEntry>,
    wiped: &mut ErrorRing,
    clean: ErrorRing,
    nothing: Vec<ErrorEntry>,
    fresh: ErrorRing,
    none: Vec<ErrorEntry>,
    i: int,
)
    requires
        old(ring).wf(),
        call_ensures(set_capacity, (ring, cap), ()),
        before == *old(ring),
        after == *final(ring),
        call_ensures(snapshot, (&before,), was),
        call_ensures(snapshot, (&after,), is),
        call_ensures(clear, (wiped,), ()),
        clean == *final(wiped),
        call_ensures(snapshot, (&clean,), nothing),
        call_ensures(ErrorRing::new, (), fresh),
        call_ensures(snapshot, (&fresh,), none),
    ensures
        after.capacity() == cap,
        was@.len() <= cap ==> is@.len() == was@.len(),
        was@.len() > cap ==> is@.len() == cap,
        0 <= i < is@.len() ==> is@[i] == was@[i],
        nothing@.len() == 0,
        final(wiped).capacity() == old(wiped).capacity(),
        none@.len() == 0,
        fresh.capacity() == 256,
{
}

} // verus!
