//! Which events reach a webhook.
use vstd::prelude::*;

use crate::text::{str_eq, views};
use crate::webhooks::event::WebhookEvent;

verus! {

/// The sink of a daemon without webhooks: it takes no event.
#[derive(Debug, Clone, Copy)]
pub struct NullSink;

impl NullSink {
    /// Whether the event is delivered: none is.
    pub fn passes(&self, event: &WebhookEvent) -> (r: bool)
        ensures
            !r,
    {
        false
    }
}

/// The types of event that are delivered; an empty list delivers all.
#[derive(Debug)]
pub struct FilteredSink {
    pub allowed: Vec<String>,
}

impl FilteredSink {
    /// A sink for the listed types.
    pub fn new(allowed: Vec<String>) -> (r: Self)
        ensures
            r.allowed == allowed,
    {
        FilteredSink { allowed }
    }

    /// The event is delivered.
    pub open spec fn delivers(self, event: WebhookEvent) -> bool {
        self.allowed@.len() == 0 || views(self.allowed@).contains(event.type_text())
    }

    /// Whether the event is delivered.
    pub fn passes(&self, event: &WebhookEvent) -> (r: bool)
        ensures
            r == self.delivers(*event),
    {
        if self.allowed.len() == 0 {
            return true;
        }
        let name = event.type_str();
        let mut i: usize = 0;
        while i < self.allowed.len()
            invariant
                i <= self.allowed@.len(),
                self.allowed@.len() > 0,
                name@ == event.type_text(),
                forall|k: int| 0 <= k < i ==> (#[trigger] views(self.allowed@)[k]) != name@,
            decreases self.allowed@.len() - i,
        {
            assert(views(self.allowed@)[i as int] == self.allowed@[i as int]@);
            if str_eq(self.allowed[i].as_str(), name) {
                return true;
            }
            i += 1;
        }
        false
    }

    /// What is handed on: the event itself, or nothing.
    pub fn emit(&self, event: WebhookEvent) -> (r: Option<WebhookEvent>)
        ensures
            r == (if self.delivers(event) {
                Some(event)
            } else {
                None
            }),
    {
        if self.passes(&event) {
            Some(event)
        } else {
            None
        }
    }
}

/// A list that names more types delivers more, unless the shorter one is empty.
pub proof fn a_longer_list_delivers_more(
    less: FilteredSink,
    more: FilteredSink,
    event: WebhookEvent,
)
    requires
        less.allowed@.len() > 0,
        less.delivers(event),
        forall|s: Seq<char>| views(less.allowed@).contains(s) ==> views(more.allowed@).contains(s),
    ensures
        more.delivers(event),
{
}

/// A sink with a list delivers the events whose type stands in it, wherever it stands, and
/// no others; one without a list delivers every event, and the sink of a daemon without
/// webhooks none. What is delivered is the event as it came.
pub proof fn a_listed_event_is_delivered(
    sink: &FilteredSink,
    event: WebhookEvent,
    name: &'static str,
    passes: bool,
    out: Option<WebhookEvent>,
    null: &NullSink,
    dropped: bool,
    i: int,
)
    requires
        call_ensures(WebhookEvent::type_str, (&event,), name),
        call_ensures(FilteredSink::passes, (sink, &event), passes),
        call_ensures(FilteredSink::emit, (sink, event), out),
        call_ensures(NullSink::passes, (null, &event), dropped),
    ensures
        sink.allowed@.len() == 0 ==> passes,
        0 <= i < sink.allowed@.len() && sink.allowed@[i]@ == name@ ==> passes,
        passes && sink.allowed@.len() > 0 ==> exists|k: int|
            0 <= k < sink.allowed@.len() && (#[trigger] sink.allowed@[k])@ == name@,
        passes ==> out == Some(event),
        !passes ==> out is None,
        !dropped,
{
    let all = views(sink.allowed@);
    if 0 <= i < sink.allowed@.len() && sink.allowed@[i]@ == name@ {
        assert(all[i] == name@);
    }
    if passes && sink.allowed@.len() > 0 {
        let k = choose|k: int| 0 <= k < all.len() && all[k] == name@;
        assert(sink.allowed@[k]@ == name@);
    }
}

/// A sink keeps the list that it is made with.
pub proof fn a_sink_keeps_its_list(allowed: Vec<String>, r: FilteredSink)
    requires
        call_ensures(FilteredSink::new, (allowed,), r),
    ensures
        r.allowed == allowed,
{
}

} // verus!
