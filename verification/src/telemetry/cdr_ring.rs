//! Recent call records: the last completed calls, served newest first.
use vstd::prelude::*;
use vstd::utf8::encode_utf8;

use crate::telemetry::admin::{json_field, json_string_field};
use crate::telemetry::admin_route::opt_view;
use crate::telemetry::ring::{a_run_leaves_the_newest, after_run, newest, BoundedRing};

verus! {

/// Default ring capacity.
pub const DEFAULT_CAPACITY: usize = 50;

/// One completed call's serialized record, with the two ids lookups need.
#[derive(Debug)]
pub struct CdrRecord {
    pub call_id: Option<String>,
    pub sip_call_id: Option<String>,
    /// The record as JSON text.
    pub json: String,
}

impl Clone for CdrRecord {
    fn clone(&self) -> (r: Self)
        ensures
            r == *self,
    {
        CdrRecord {
            call_id: self.call_id.clone(),
            sip_call_id: self.sip_call_id.clone(),
            json: self.json.clone(),
        }
    }
}

impl CdrRecord {
    /// The record of the JSON text `json`, with its string fields `call_id` and
    /// `sip_call_id` for lookups.
    pub fn from_json(json: String) -> (r: Self)
        ensures
            r.json == json,
            opt_view(r.call_id) == json_string_field(encode_utf8(json@), "call_id"@),
            opt_view(r.sip_call_id) == json_string_field(encode_utf8(json@), "sip_call_id"@),
    {
        let bytes = json.as_str().as_bytes();
        let call_id = json_field(bytes, "call_id");
        let sip_call_id = json_field(bytes, "sip_call_id");
        CdrRecord { call_id, sip_call_id, json }
    }
}

/// The recent-calls ring.
pub struct CdrRing {
    ring: BoundedRing<CdrRecord>,
}

impl CdrRing {
    pub closed spec fn capacity(self) -> nat {
        self.ring.capacity()
    }

    /// The records held, oldest first.
    pub closed spec fn entries(self) -> Seq<CdrRecord> {
        self.ring.entries()
    }

    pub open spec fn wf(self) -> bool {
        self.entries().len() <= self.capacity()
    }

    /// An empty ring of the default capacity.
    pub fn new() -> (r: Self)
        ensures
            r.wf(),
            r.capacity() == DEFAULT_CAPACITY,
            r.entries().len() == 0,
    {
        CdrRing { ring: BoundedRing::new(DEFAULT_CAPACITY) }
    }
}

/// Resize the ring. `0` turns capture off; shrinking drops the oldest records.
pub fn set_capacity(ring: &mut CdrRing, cap: usize)
    requires
        old(ring).wf(),
    ensures
        final(ring).wf(),
        final(ring).capacity() == cap,
        final(ring).entries() == newest(old(ring).entries(), cap as nat),
{
    ring.ring.set_capacity(cap);
}

/// Push one completed call's record.
pub fn push(ring: &mut CdrRing, record: CdrRecord)
    requires
        old(ring).wf(),
    ensures
        final(ring).wf(),
        final(ring).capacity() == old(ring).capacity(),
        final(ring).entries() == newest(old(ring).entries().push(record), old(ring).capacity()),
{
    ring.ring.push(record);
}

/// The records held, newest first.
pub fn snapshot(ring: &CdrRing) -> (r: Vec<CdrRecord>)
    ensures
        r@ == ring.entries().reverse(),
{
    let r = ring.ring.snapshot();
    assert(r@ =~= ring.entries().reverse());
    r
}

/// What a snapshot gives after any number of pushes: the newest records, those held
/// before and those pushed, the last one first.
pub proof fn pushed_records_are_read_back(before: Seq<CdrRecord>, run: Seq<CdrRecord>, cap: nat)
    requires
        before.len() <= cap,
    ensures
        after_run(before, run, cap).reverse() == newest(before + run, cap).reverse(),
        forall|i: int|
            0 <= i < run.len() && i < cap ==> #[trigger] after_run(before, run, cap).reverse()[i]
                == run[run.len() - 1 - i],
{
    a_run_leaves_the_newest(before, run, cap);
}

// ---- What is promised of every call ----

/// The record that was pushed last is served first, the one before it second, and so on;
/// only the oldest goes, and only from a full ring. A ring of no capacity serves nothing.
pub proof fn the_last_record_is_served_first(
    ring: &mut CdrRing,
    record: CdrRecord,
    before: CdrRing,
    was: Vec<CdrRecord>,
    after: CdrRing,
    is: Vec<CdrRecord>,
    i: int,
)
    requires
        old(ring).wf(),
        call_ensures(push, (ring, record), ()),
        before == *old(ring),
        after == *final(ring),
        call_ensures(snapshot, (&before,), was),
        call_ensures(snapshot, (&after,), is),
    ensures
        after.capacity() == before.capacity(),
        before.capacity() == 0 ==> is@.len() == 0,
        before.capacity() > 0 ==> {
            &&& is@.len() > 0 && is@[0] == record
            &&& was@.len() < before.capacity() ==> is@.len() == was@.len() + 1
            &&& was@.len() == before.capacity() ==> is@.len() == was@.len()
            &&& 0 <= i < is@.len() - 1 ==> is@[i + 1] == was@[i]
        },
{
}

/// A new capacity serves as many of the newest records as it has room for, the newest
/// first; a new ring has room for fifty and serves none.
pub proof fn a_new_capacity_serves_the_newest(
    ring: &mut CdrRing,
    cap: usize,
    before: CdrRing,
    was: Vec<CdrRecord>,
    after: CdrRing,
    is: Vec<CdrRecord>,
    fresh: CdrRing,
    none: Vec<CdrRecord>,
    i: int,
)
    requires
        old(ring).wf(),
        call_ensures(set_capacity, (ring, cap), ()),
        before == *old(ring),
        after == *final(ring),
        call_ensures(snapshot, (&before,), was),
        call_ensures(snapshot, (&after,), is),
        call_ensures(CdrRing::new, (), fresh),
        call_ensures(snapshot, (&fresh,), none),
    ensures
        after.capacity() == cap,
        was@.len() <= cap ==> is@.len() == was@.len(),
        was@.len() > cap ==> is@.len() == cap,
        0 <= i < is@.len() ==> is@[i] == was@[i],
        none@.len() == 0,
        fresh.capacity() == 50,
{
}

/// A record is looked up by the ids of its own text, each under its own name.
pub proof fn a_record_has_the_ids_of_its_text(json: String, r: CdrRecord)
    requires
        call_ensures(CdrRecord::from_json, (json,), r),
    ensures
        r.json == json,
        r.call_id is Some <==> json_string_field(encode_utf8(json@), "call_id"@) is Some,
        r.call_id is Some ==> r.call_id->0@ == json_string_field(
            encode_utf8(json@),
            "call_id"@,
        )->0,
        r.sip_call_id is Some <==> json_string_field(encode_utf8(json@), "sip_call_id"@) is Some,
        r.sip_call_id is Some ==> r.sip_call_id->0@ == json_string_field(
            encode_utf8(json@),
            "sip_call_id"@,
        )->0,
{
}

} // verus!
