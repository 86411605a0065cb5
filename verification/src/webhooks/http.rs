//! Delivery of events over HTTP.
use vstd::prelude::*;

use crate::webhooks::event::WebhookEvent;

verus! {

/// Where and how events are posted. `retry_max` of 0 posts once.
#[derive(Debug, Clone)]
pub struct HttpSinkConfig {
    pub url: String,
    /// The value of the `Authorization` header, sent as it is.
    pub auth_header: Option<String>,
    pub retry_max: u32,
    pub timeout_ms: u64,
}

impl HttpSinkConfig {
    /// Posts to `url` without credentials, with the poster's default limits.
    pub fn new(url: String, default_retry_max: u32, default_timeout_ms: u64) -> (r: Self)
        ensures
            r.url == url,
            r.auth_header is None,
            r.retry_max == default_retry_max,
            r.timeout_ms == default_timeout_ms,
    {
        HttpSinkConfig {
            url,
            auth_header: None,
            retry_max: default_retry_max,
            timeout_ms: default_timeout_ms,
        }
    }
}

/// How a delivery is named in the log.
#[derive(Debug)]
pub struct PostLog<'a> {
    pub kind: &'static str,
    pub call_id: &'a str,
    pub detail: Option<&'static str>,
}

/// How the delivery of `event` is named in the log: by its call, `-` where it has
/// none, and its type.
pub fn post_log<'a>(event: &'a WebhookEvent) -> (r: PostLog<'a>)
    ensures
        r.kind@ == "lifecycle webhook"@,
        r.call_id@ == (match event.call() {
            Some(id) => id,
            None => "-"@,
        }),
        r.detail matches Some(d) && d@ == event.type_text(),
{
    PostLog {
        kind: "lifecycle webhook",
        call_id: match event.call_id() {
            Some(id) => id,
            None => "-",
        },
        detail: Some(event.type_str()),
    }
}

/// A delivery is logged under the type and the call of its event, `-` for an event about
/// no call.
pub proof fn a_delivery_is_logged_under_its_event(
    event: &WebhookEvent,
    r: PostLog<'_>,
    name: &'static str,
    id: Option<&str>,
)
    requires
        call_ensures(post_log, (event,), r),
        call_ensures(WebhookEvent::type_str, (event,), name),
        call_ensures(WebhookEvent::call_id, (event,), id),
    ensures
        r.detail is Some && r.detail->0@ == name@,
        id is Some ==> r.call_id@ == id->0@,
        id is None ==> r.call_id@ == "-"@,
        r.kind@ == "lifecycle webhook"@,
{
}

/// A configuration posts to its URL, without credentials and within the given limits.
pub proof fn a_configuration_has_its_limits(
    url: String,
    retry_max: u32,
    timeout_ms: u64,
    r: HttpSinkConfig,
)
    requires
        call_ensures(HttpSinkConfig::new, (url, retry_max, timeout_ms), r),
    ensures
        r.url == url,
        r.auth_header is None,
        r.retry_max == retry_max,
        r.timeout_ms == timeout_ms,
{
}

} // verus!
