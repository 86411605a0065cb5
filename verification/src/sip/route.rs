//! From an inbound INVITE to the route that takes it.
use vstd::prelude::*;

use crate::routes::call_info::CallInfo;
use crate::routes::compiled::{
    first_match, header_holds, some_name_holds, the_first_match_wins, CompiledMatch,
    CompiledRoute, Matcher, RouteSet,
};
use crate::sip::invite::{header_map, request_info, InviteFacts};
use crate::sip::message::{header_views, Request, SipUri};
use crate::text::{lower, views};

verus! {

/// What the matcher concluded for an inbound call.
#[derive(Debug)]
pub enum RouteDecision<'a> {
    /// A route takes the call.
    Matched { facts: InviteFacts, route: &'a CompiledRoute },
    /// No route does.
    NoMatch { facts: InviteFacts },
}

/// The route of `request`: the first one that matches its facts.
pub open spec fn route_index(routes: RouteSet, request: Request, register_source: Seq<char>) -> int {
    first_match(routes.routes@, request_info(request, register_source))
}

/// Which route, if any, takes `request`. The route is borrowed from `routes`
/// alone.
pub fn route_invite<'r>(request: &Request, register_source: &str, routes: &'r RouteSet) -> (r:
    RouteDecision<'r>)
    ensures
        match r {
            RouteDecision::Matched { facts, route } => {
                &&& facts.are_of(*request)
                &&& route_index(*routes, *request, register_source@) < routes.routes@.len()
                &&& *route == routes.routes@[route_index(*routes, *request, register_source@)]
            },
            RouteDecision::NoMatch { facts } => {
                &&& facts.are_of(*request)
                &&& route_index(*routes, *request, register_source@) == routes.routes@.len()
            },
        },
{
    let facts = InviteFacts::extract(request);
    let found = {
        let info = facts.as_call_info(register_source);
        assert(info@ =~= request_info(*request, register_source@));
        routes.find_match(&info)
    };
    match found {
        Some(route) => RouteDecision::Matched { facts, route },
        None => RouteDecision::NoMatch { facts },
    }
}

// ---- Laws ----

/// The value that a header predicate is held against: that of the last header of the
/// request with the predicate's name, whatever its case, and the empty text when there
/// is none.
proof fn a_header_is_read_from_the_request(h: Seq<(Seq<char>, Seq<char>)>, name: Seq<char>)
    ensures
        header_map(h).dom().contains(name) <==> exists|k: int|
            0 <= k < h.len() && lower((#[trigger] h[k]).0) == name,
        forall|k: int|
            0 <= k < h.len() && lower((#[trigger] h[k]).0) == name && (forall|l: int|
                k < l < h.len() ==> lower((#[trigger] h[l]).0) != name) ==> header_map(h)[name]
                == h[k].1,
    decreases h.len(),
{
    if h.len() > 0 {
        let front = h.drop_last();
        let last = h.len() - 1;
        a_header_is_read_from_the_request(front, name);
        if lower(h[last].0) != name {
            if exists|k: int| 0 <= k < h.len() && lower((#[trigger] h[k]).0) == name {
                let k = choose|k: int| 0 <= k < h.len() && lower((#[trigger] h[k]).0) == name;
                assert(front[k] == h[k]);
            }
            if exists|k: int| 0 <= k < front.len() && lower((#[trigger] front[k]).0) == name {
                let k = choose|k: int|
                    0 <= k < front.len() && lower((#[trigger] front[k]).0) == name;
                assert(front[k] == h[k]);
            }
        }
        assert forall|k: int|
            0 <= k < h.len() && lower((#[trigger] h[k]).0) == name && (forall|l: int|
                k < l < h.len() ==> lower((#[trigger] h[l]).0) != name) implies header_map(h)[name]
            == h[k].1 by {
            if k < last {
                assert(lower(h[last].0) != name);
                assert(front[k] == h[k]);
                assert forall|l: int| k < l < front.len() implies lower((#[trigger] front[l]).0)
                    != name by {
                    assert(front[l] == h[l]);
                }
            }
        }
    }
}

/// The route taken asks for nothing that the request does not have: each key of it is
/// fulfilled by the user or the host of the very address it is named after, by the
/// source, by a name of the certificate, by a header. An address that is missing counts
/// as empty.
pub proof fn the_route_taken_asks_for_what_the_request_has(
    request: &Request,
    source: &str,
    routes: &RouteSet,
    r: RouteDecision<'_>,
)
    requires
        call_ensures(route_invite, (request, source, routes), r),
    ensures
        r is Matched && !r->route.match_.any ==> {
            let m = r->route.match_;
            &&& m.request_uri_user matches Some(p) ==> p.holds(
                if request.uri is Some && request.uri->0.user is Some {
                    request.uri->0.user->0@
                } else {
                    Seq::empty()
                },
            )
            &&& m.request_uri_host matches Some(p) ==> p.holds(
                if request.uri is Some {
                    request.uri->0.host@
                } else {
                    Seq::empty()
                },
            )
            &&& m.to_user matches Some(p) ==> p.holds(
                if request.to is Some && request.to->0.user is Some {
                    request.to->0.user->0@
                } else {
                    Seq::empty()
                },
            )
            &&& m.to_host matches Some(p) ==> p.holds(
                if request.to is Some {
                    request.to->0.host@
                } else {
                    Seq::empty()
                },
            )
            &&& m.from_user matches Some(p) ==> p.holds(
                if request.from is Some && request.from->0.user is Some {
                    request.from->0.user->0@
                } else {
                    Seq::empty()
                },
            )
            &&& m.from_host matches Some(p) ==> p.holds(
                if request.from is Some {
                    request.from->0.host@
                } else {
                    Seq::empty()
                },
            )
            &&& m.register_source matches Some(p) ==> p.holds(source@)
            &&& m.peer_cert_san matches Some(p) ==> exists|i: int|
                0 <= i < request.peer_cert_names@.len() && p.holds(
                    (#[trigger] request.peer_cert_names@[i])@,
                )
            &&& forall|j: int|
                0 <= j < m.headers@.len() ==> {
                    ||| (#[trigger] m.headers@[j]).1.holds(Seq::empty()) && forall|k: int|
                        0 <= k < request.headers@.len() ==> lower((#[trigger] request.headers@[k]).0@)
                            != lower(m.headers@[j].0@)
                    ||| exists|k: int|
                        0 <= k < request.headers@.len() && lower((#[trigger] request.headers@[k]).0@)
                            == lower(m.headers@[j].0@) && m.headers@[j].1.holds(
                            request.headers@[k].1@,
                        ) && forall|l: int|
                            k < l < request.headers@.len() ==> lower(
                                (#[trigger] request.headers@[l]).0@,
                            ) != lower(m.headers@[j].0@)
                }
        },
        r is Matched ==> exists|k: int|
            0 <= k < routes.routes@.len() && *r->route == #[trigger] routes.routes@[k],
{
    let info = request_info(*request, source@);
    the_first_match_wins(routes.routes@, info);
    if let RouteDecision::Matched { facts, route } = r {
        let m = route.match_;
        let i = route_index(*routes, *request, source@);
        assert(*route == routes.routes@[i]);
        if !m.any {
            if let Some(p) = m.peer_cert_san {
                let i = choose|i: int|
                    0 <= i < info.peer_cert_names.len() && p.holds(
                        #[trigger] info.peer_cert_names[i],
                    );
                assert(info.peer_cert_names[i] == request.peer_cert_names@[i]@);
            }
            let h = header_views(request.headers@);
            assert forall|j: int| 0 <= j < m.headers@.len() implies {
                ||| (#[trigger] m.headers@[j]).1.holds(Seq::empty()) && forall|k: int|
                    0 <= k < request.headers@.len() ==> lower((#[trigger] request.headers@[k]).0@)
                        != lower(m.headers@[j].0@)
                ||| exists|k: int|
                    0 <= k < request.headers@.len() && lower((#[trigger] request.headers@[k]).0@)
                        == lower(m.headers@[j].0@) && m.headers@[j].1.holds(request.headers@[k].1@)
                        && forall|l: int|
                        k < l < request.headers@.len() ==> lower((#[trigger] request.headers@[l]).0@)
                            != lower(m.headers@[j].0@)
            } by {
                let name = lower(m.headers@[j].0@);
                assert(header_holds(m.headers@[j], info.headers));
                a_header_is_read_from_the_request(h, name);
                if header_map(h).dom().contains(name) {
                    let k = last_named(h, name);
                    last_named_is_last(h, name);
                    assert(h[k] == (request.headers@[k].0@, request.headers@[k].1@));
                    assert(header_map(h)[name] == h[k].1);
                    assert forall|l: int| k < l < request.headers@.len() implies lower(
                        (#[trigger] request.headers@[l]).0@,
                    ) != name by {
                        assert(h[l] == (request.headers@[l].0@, request.headers@[l].1@));
                    }
                    assert(lower(request.headers@[k].0@) == name);
                } else {
                    assert forall|k: int| 0 <= k < request.headers@.len() implies lower(
                        (#[trigger] request.headers@[k]).0@,
                    ) != name by {
                        assert(h[k] == (request.headers@[k].0@, request.headers@[k].1@));
                    }
                }
            }
        }
    }
}

/// Where the last header of that name stands; -1 when there is none.
spec fn last_named(h: Seq<(Seq<char>, Seq<char>)>, name: Seq<char>) -> int
    decreases h.len(),
{
    if h.len() == 0 {
        -1
    } else if lower(h.last().0) == name {
        h.len() - 1
    } else {
        last_named(h.drop_last(), name)
    }
}

proof fn last_named_is_last(h: Seq<(Seq<char>, Seq<char>)>, name: Seq<char>)
    ensures
        -1 <= last_named(h, name) < h.len(),
        last_named(h, name) >= 0 ==> lower(h[last_named(h, name)].0) == name,
        forall|l: int| last_named(h, name) < l < h.len() ==> lower((#[trigger] h[l]).0) != name,
    decreases h.len(),
{
    if h.len() > 0 && lower(h.last().0) != name {
        let front = h.drop_last();
        last_named_is_last(front, name);
        assert forall|l: int| last_named(h, name) < l < h.len() implies lower((#[trigger] h[l]).0)
            != name by {
            if l < front.len() {
                assert(front[l] == h[l]);
            }
        }
    }
}

/// A route that asks for nothing but one thing takes every request that no route above
/// it takes and that has it: for each key, the user or the host of the address that the
/// key is named after, and for a route that matches every call, nothing at all. One that
/// the request does not have it passes by.
pub proof fn a_route_with_one_key_takes_what_has_it(
    request: &Request,
    source: &str,
    routes: &RouteSet,
    r: RouteDecision<'_>,
    p: Matcher,
)
    requires
        call_ensures(route_invite, (request, source, routes), r),
        routes.routes@.len() == 1,
    ensures
        ({
            let m = routes.routes@[0].match_;
            let bare = CompiledMatch {
                any: false,
                request_uri_user: None,
                request_uri_host: None,
                to_user: None,
                to_host: None,
                from_user: None,
                from_host: None,
                register_source: None,
                peer_cert_san: None,
                headers: m.headers,
            };
            let uri = request.uri;
            let to = request.to;
            let from = request.from;
            let user = |u: Option<SipUri>|
                if u is Some && u->0.user is Some {
                    u->0.user->0@
                } else {
                    Seq::empty()
                };
            let host = |u: Option<SipUri>|
                if u is Some {
                    u->0.host@
                } else {
                    Seq::empty()
                };
            let only = |b: CompiledMatch| m == b && m.headers@.len() == 0;
            &&& only(CompiledMatch { request_uri_user: Some(p), ..bare }) ==> (r is Matched
                <==> p.holds(user(uri)))
            &&& only(CompiledMatch { request_uri_host: Some(p), ..bare }) ==> (r is Matched
                <==> p.holds(host(uri)))
            &&& only(CompiledMatch { to_user: Some(p), ..bare }) ==> (r is Matched <==> p.holds(
                user(to),
            ))
            &&& only(CompiledMatch { to_host: Some(p), ..bare }) ==> (r is Matched <==> p.holds(
                host(to),
            ))
            &&& only(CompiledMatch { from_user: Some(p), ..bare }) ==> (r is Matched <==> p.holds(
                user(from),
            ))
            &&& only(CompiledMatch { from_host: Some(p), ..bare }) ==> (r is Matched <==> p.holds(
                host(from),
            ))
            &&& only(CompiledMatch { register_source: Some(p), ..bare }) ==> (r is Matched
                <==> p.holds(source@))
            &&& only(CompiledMatch { peer_cert_san: Some(p), ..bare }) ==> (r is Matched
                <==> exists|i: int|
                0 <= i < request.peer_cert_names@.len() && p.holds(
                    (#[trigger] request.peer_cert_names@[i])@,
                ))
            &&& m.any ==> r is Matched
        }),
{
    let info = request_info(*request, source@);
    let m = routes.routes@[0].match_;
    the_first_match_wins(routes.routes@, info);
    assert(r is Matched <==> m.holds(info));
    assert(info.peer_cert_names.len() == request.peer_cert_names@.len());
    assert forall|i: int| 0 <= i < request.peer_cert_names@.len() implies (
    #[trigger] request.peer_cert_names@[i])@ == info.peer_cert_names[i] by {}
    if some_name_holds(p, info.peer_cert_names) {
        let i = choose|i: int|
            0 <= i < info.peer_cert_names.len() && p.holds(#[trigger] info.peer_cert_names[i]);
        assert(p.holds(request.peer_cert_names@[i]@));
    }
    if exists|i: int|
        0 <= i < request.peer_cert_names@.len() && p.holds(
            (#[trigger] request.peer_cert_names@[i])@,
        ) {
        let i = choose|i: int|
            0 <= i < request.peer_cert_names@.len() && p.holds(
                (#[trigger] request.peer_cert_names@[i])@,
            );
        assert(p.holds(info.peer_cert_names[i]));
    }
}

/// The first route of the file that fits is taken: one that fits where it stands alone
/// is never passed by for a later one, and one that does not fit alone is never taken.
pub proof fn the_first_fitting_route_is_taken(
    request: &Request,
    source: &str,
    routes: &RouteSet,
    r: RouteDecision<'_>,
    i: int,
    alone: &RouteSet,
    a: RouteDecision<'_>,
)
    requires
        call_ensures(route_invite, (request, source, routes), r),
        0 <= i < routes.routes@.len(),
        alone.routes@ == seq![routes.routes@[i]],
        call_ensures(route_invite, (request, source, alone), a),
    ensures
        a is Matched ==> r is Matched,
        a is Matched ==> exists|k: int|
            0 <= k <= i && *r->route == #[trigger] routes.routes@[k],
        a !is Matched && r is Matched ==> exists|k: int|
            0 <= k < routes.routes@.len() && k != i && *r->route == #[trigger] routes.routes@[k],
{
    let info = request_info(*request, source@);
    the_first_match_wins(routes.routes@, info);
    the_first_match_wins(alone.routes@, info);
    let k = route_index(*routes, *request, source@);
    assert(alone.routes@[0] == routes.routes@[i]);
    assert(a is Matched <==> routes.routes@[i].match_.holds(info));
    if r is Matched {
        assert(*r->route == routes.routes@[k]);
    }
}

/// What no route asks about makes no difference: two requests that differ in one address
/// alone go the same way where no route has a key on that address.
pub proof fn what_nobody_asks_about_makes_no_difference(
    one: &Request,
    other: &Request,
    source: &str,
    routes: &RouteSet,
    r: RouteDecision<'_>,
    s: RouteDecision<'_>,
)
    requires
        call_ensures(route_invite, (one, source, routes), r),
        call_ensures(route_invite, (other, source, routes), s),
        one.headers@ == other.headers@,
        one.peer_cert_names@ == other.peer_cert_names@,
        one.uri == other.uri || forall|i: int|
            0 <= i < routes.routes@.len() ==> (#[trigger] routes.routes@[i]).match_.request_uri_user
                is None && routes.routes@[i].match_.request_uri_host is None,
        one.to == other.to || forall|i: int|
            0 <= i < routes.routes@.len() ==> (#[trigger] routes.routes@[i]).match_.to_user is None
                && routes.routes@[i].match_.to_host is None,
        one.from == other.from || forall|i: int|
            0 <= i < routes.routes@.len() ==> (#[trigger] routes.routes@[i]).match_.from_user
                is None && routes.routes@[i].match_.from_host is None,
    ensures
        r is Matched <==> s is Matched,
        r is Matched ==> *r->route == *s->route,
{
    let a = request_info(*one, source@);
    let b = request_info(*other, source@);
    assert forall|i: int| 0 <= i < routes.routes@.len() implies (
    #[trigger] routes.routes@[i]).match_.holds(a) == routes.routes@[i].match_.holds(b) by {}
    the_first_match_wins(routes.routes@, a);
    the_first_match_wins(routes.routes@, b);
    let i = route_index(*routes, *one, source@);
    let j = route_index(*routes, *other, source@);
    if i < j {
        assert(!routes.routes@[i].match_.holds(b));
    }
    if j < i {
        assert(!routes.routes@[j].match_.holds(a));
    }
}

/// The facts handed on with a call are those of its request.
pub proof fn the_facts_are_those_of_the_request(request: &Request, facts: InviteFacts)
    requires
        call_ensures(InviteFacts::extract, (request,), facts),
    ensures
        request.uri matches Some(u) ==> facts.request_uri_host@ == u.host@,
        request.from matches Some(u) ==> facts.from_host@ == u.host@,
        request.to matches Some(u) ==> facts.to_host@ == u.host@,
        request.uri matches Some(SipUri { user: Some(n), .. }) ==> facts.request_uri_user@ == n@,
        request.from matches Some(SipUri { user: Some(n), .. }) ==> facts.from_user@ == n@,
        request.to matches Some(SipUri { user: Some(n), .. }) ==> facts.to_user@ == n@,
        request.uri is None ==> facts.request_uri_user@.len() == 0 && facts.request_uri_host@.len()
            == 0,
        request.from is None ==> facts.from_user@.len() == 0 && facts.from_host@.len() == 0,
        request.to is None ==> facts.to_user@.len() == 0 && facts.to_host@.len() == 0,
        facts.peer_cert_names@ == request.peer_cert_names@,
{
}

/// The matcher is shown each fact under its own name.
pub proof fn each_fact_keeps_its_name(facts: &InviteFacts, source: &str, info: CallInfo<'_>)
    requires
        call_ensures(InviteFacts::as_call_info, (facts, source), info),
    ensures
        info.request_uri_user@ == facts.request_uri_user@,
        info.request_uri_host@ == facts.request_uri_host@,
        info.to_user@ == facts.to_user@,
        info.to_host@ == facts.to_host@,
        info.from_user@ == facts.from_user@,
        info.from_host@ == facts.from_host@,
        info.register_source@ == source@,
        info.peer_cert_names@.len() == facts.peer_cert_names@.len(),
        forall|i: int|
            0 <= i < facts.peer_cert_names@.len() ==> (#[trigger] info.peer_cert_names@[i])@
                == facts.peer_cert_names@[i]@,
        info.headers@ == facts.headers@,
{
    assert(info@ == facts.info(source@));
    assert(views(info.peer_cert_names@).len() == views(facts.peer_cert_names@).len());
    assert forall|i: int| 0 <= i < facts.peer_cert_names@.len() implies (
    #[trigger] info.peer_cert_names@[i])@ == facts.peer_cert_names@[i]@ by {
        assert(views(info.peer_cert_names@)[i] == views(facts.peer_cert_names@)[i]);
    }
}

} // verus!
