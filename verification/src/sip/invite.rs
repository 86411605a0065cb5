//! The facts of an inbound INVITE that a route can ask about.
use vstd::prelude::*;

use crate::routes::call_info::{CallInfo, Headers, InfoView};
use crate::sip::message::{header_views, Request, SipUri};
use crate::text::{lower, views};

verus! {

/// Everything a route's match block can ask about one INVITE. A piece that the
/// request lacks is the empty string.
#[derive(Debug, Clone)]
pub struct InviteFacts {
    pub request_uri_user: String,
    pub request_uri_host: String,
    pub to_user: String,
    pub to_host: String,
    pub from_user: String,
    pub from_host: String,
    pub headers: Headers,
    pub peer_cert_names: Vec<String>,
}

/// The user of a URI; empty when there is none.
pub open spec fn user_of(uri: Option<SipUri>) -> Seq<char> {
    match uri {
        Some(u) => match u.user {
            Some(name) => name@,
            None => seq![],
        },
        None => seq![],
    }
}

/// The host of a URI; empty when there is none.
pub open spec fn host_of(uri: Option<SipUri>) -> Seq<char> {
    match uri {
        Some(u) => u.host@,
        None => seq![],
    }
}

/// The headers as a map: names in lower case, and of a name that occurs more
/// than once, the last value.
pub open spec fn header_map(h: Seq<(Seq<char>, Seq<char>)>) -> Map<Seq<char>, Seq<char>>
    decreases h.len(),
{
    if h.len() == 0 {
        Map::empty()
    } else {
        header_map(h.drop_last()).insert(lower(h.last().0), h.last().1)
    }
}

/// What `request` presents to the matcher.
pub open spec fn request_info(request: Request, register_source: Seq<char>) -> InfoView {
    InfoView {
        request_uri_user: user_of(request.uri),
        request_uri_host: host_of(request.uri),
        to_user: user_of(request.to),
        to_host: host_of(request.to),
        from_user: user_of(request.from),
        from_host: host_of(request.from),
        register_source,
        peer_cert_names: views(request.peer_cert_names@),
        headers: header_map(header_views(request.headers@)),
    }
}

fn parse_user_host(uri: &Option<SipUri>) -> (r: (String, String))
    ensures
        r.0@ == user_of(*uri),
        r.1@ == host_of(*uri),
{
    let none = String::new();
    assert(none@ =~= seq![]);
    match uri {
        None => {
            let also = String::new();
            assert(also@ =~= seq![]);
            (none, also)
        },
        Some(u) => {
            let user = match &u.user {
                Some(name) => name.clone(),
                None => none,
            };
            (user, u.host.clone())
        },
    }
}

fn collect_headers(list: &Vec<(String, String)>) -> (r: Headers)
    ensures
        r@ == header_map(header_views(list@)),
{
    let ghost all = header_views(list@);
    let mut headers = Headers::new();
    assert(all.subrange(0, 0) =~= seq![]);
    let mut i: usize = 0;
    while i < list.len()
        invariant
            i <= list@.len(),
            all == header_views(list@),
            headers@ == header_map(all.subrange(0, i as int)),
        decreases list@.len() - i,
    {
        headers.insert(list[i].0.as_str(), list[i].1.as_str());
        let ghost next = all.subrange(0, i + 1);
        assert(next.drop_last() =~= all.subrange(0, i as int));
        assert(next.last() == all[i as int]);
        i += 1;
    }
    assert(all.subrange(0, i as int) =~= all);
    headers
}

fn copy_names(names: &Vec<String>) -> (r: Vec<String>)
    ensures
        r@ == names@,
{
    let mut out: Vec<String> = Vec::new();
    let mut i: usize = 0;
    while i < names.len()
        invariant
            i <= names@.len(),
            out@ == names@.subrange(0, i as int),
        decreases names@.len() - i,
    {
        out.push(names[i].clone());
        i += 1;
    }
    assert(out@ =~= names@);
    out
}

impl InviteFacts {
    /// These are the facts of `request`.
    pub open spec fn are_of(self, request: Request) -> bool {
        &&& self.request_uri_user@ == user_of(request.uri)
        &&& self.request_uri_host@ == host_of(request.uri)
        &&& self.to_user@ == user_of(request.to)
        &&& self.to_host@ == host_of(request.to)
        &&& self.from_user@ == user_of(request.from)
        &&& self.from_host@ == host_of(request.from)
        &&& self.headers@ == header_map(header_views(request.headers@))
        &&& self.peer_cert_names@ == request.peer_cert_names@
    }

    /// The facts as the matcher sees them.
    pub open spec fn info(self, register_source: Seq<char>) -> InfoView {
        InfoView {
            request_uri_user: self.request_uri_user@,
            request_uri_host: self.request_uri_host@,
            to_user: self.to_user@,
            to_host: self.to_host@,
            from_user: self.from_user@,
            from_host: self.from_host@,
            register_source,
            peer_cert_names: views(self.peer_cert_names@),
            headers: self.headers@,
        }
    }

    /// The facts of `request`. A missing or malformed piece is the empty string,
    /// never an error.
    pub fn extract(request: &Request) -> (r: Self)
        ensures
            r.are_of(*request),
    {
        let (request_uri_user, request_uri_host) = parse_user_host(&request.uri);
        let (from_user, from_host) = parse_user_host(&request.from);
        let (to_user, to_host) = parse_user_host(&request.to);
        InviteFacts {
            request_uri_user,
            request_uri_host,
            to_user,
            to_host,
            from_user,
            from_host,
            headers: collect_headers(&request.headers),
            peer_cert_names: copy_names(&request.peer_cert_names),
        }
    }

    /// The facts as what the matcher takes. `register_source` is the name of the
    /// registration that the call came through, or `"trunk"`.
    pub fn as_call_info<'a>(&'a self, register_source: &'a str) -> (r: CallInfo<'a>)
        ensures
            r@ == self.info(register_source@),
    {
        CallInfo {
            request_uri_user: self.request_uri_user.as_str(),
            request_uri_host: self.request_uri_host.as_str(),
            to_user: self.to_user.as_str(),
            to_host: self.to_host.as_str(),
            from_user: self.from_user.as_str(),
            from_host: self.from_host.as_str(),
            register_source,
            peer_cert_names: self.peer_cert_names.as_slice(),
            headers: &self.headers,
        }
    }
}

} // verus!
