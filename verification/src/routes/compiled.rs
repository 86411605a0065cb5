//! The compiled route table and its evaluation.
use vstd::prelude::*;

use crate::routes::call_info::{CallInfo, Headers, InfoView};
use crate::routes::raw::{BridgeOverride, MediaOverride, RecordingOverride, SecurityOverride};
use crate::text::{lower, views};

verus! {

/// A compiled regular expression of the `regex` crate.
#[verifier::external_type_specification]
#[verifier::external_body]
pub struct ExRegex(regex::Regex);

/// What `Regex::new` makes of a pattern: the compiled expression, or the text of
/// its error.
pub uninterp spec fn regex_new(pattern: Seq<char>) -> Result<regex::Regex, Seq<char>>;

/// Whether a compiled expression matches somewhere in a text.
pub uninterp spec fn regex_is_match(re: regex::Regex, text: Seq<char>) -> bool;

/// `regex::Regex::new`, with the error as its text. The grammar of patterns is
/// not spelled out: the outcome depends on the pattern alone.
#[verifier::external_body]
pub(crate) fn compile_regex(pattern: &str) -> (r: Result<regex::Regex, String>)
    ensures
        match r {
            Ok(re) => regex_new(pattern@) == Ok::<regex::Regex, Seq<char>>(re),
            Err(m) => regex_new(pattern@) == Err::<regex::Regex, Seq<char>>(m@),
        },
{
    regex::Regex::new(pattern).map_err(|e| e.to_string())
}

/// `Regex::is_match`: whether `re` matches anywhere in `text`. The outcome
/// depends on the compiled expression and the text alone.
#[verifier::external_body]
fn regex_matches(re: &regex::Regex, text: &str) -> (r: bool)
    ensures
        r == regex_is_match(*re, text@),
{
    re.is_match(text)
}

/// `Regex::clone`: the copy matches the same texts.
pub assume_specification[ <regex::Regex as Clone>::clone ](re: &regex::Regex) -> (r: regex::Regex)
    ensures
        forall|text: Seq<char>| regex_is_match(r, text) == regex_is_match(*re, text),
;

/// One predicate on a string.
#[derive(Debug, Clone)]
pub enum Matcher {
    /// Equal but for ASCII case. The text is kept in lower case.
    Literal(String),
    /// A regular expression; anchoring is up to its author.
    Regex(regex::Regex),
}

impl Matcher {
    /// `candidate` satisfies the predicate.
    pub open spec fn holds(self, candidate: Seq<char>) -> bool {
        match self {
            Matcher::Literal(want) => want@ == lower(candidate),
            Matcher::Regex(re) => regex_is_match(re, candidate),
        }
    }

    /// Whether `candidate` satisfies this predicate.
    pub fn matches(&self, candidate: &str) -> (r: bool)
        ensures
            r == self.holds(candidate@),
    {
        match self {
            Matcher::Literal(want) => {
                let have = crate::text::to_ascii_lowercase(candidate);
                *want == have
            },
            Matcher::Regex(re) => regex_matches(re, candidate),
        }
    }
}

/// A compiled match block. Each header predicate has its header's name in lower
/// case.
#[derive(Debug, Clone)]
pub struct CompiledMatch {
    pub any: bool,
    pub request_uri_user: Option<Matcher>,
    pub request_uri_host: Option<Matcher>,
    pub to_user: Option<Matcher>,
    pub to_host: Option<Matcher>,
    pub from_user: Option<Matcher>,
    pub from_host: Option<Matcher>,
    pub register_source: Option<Matcher>,
    pub peer_cert_san: Option<Matcher>,
    pub headers: Vec<(String, Matcher)>,
}

/// The client certificate, its key and the server pin of one route: the bytes
/// of the two files.
#[derive(Debug, Clone)]
pub struct BridgeTlsConfig {
    pub client_cert: Vec<u8>,
    pub client_key: Vec<u8>,
    pub pinned_sha256: Option<String>,
}

/// One compiled route.
#[derive(Debug, Clone)]
pub struct CompiledRoute {
    pub name: String,
    pub match_: CompiledMatch,
    pub bridge: BridgeOverride,
    pub media: MediaOverride,
    pub security: SecurityOverride,
    pub recording: RecordingOverride,
    pub bridge_tls: Option<BridgeTlsConfig>,
}

/// A key that is not set asks nothing; one that is set asks for a match.
pub open spec fn key_holds(m: Option<Matcher>, candidate: Seq<char>) -> bool {
    match m {
        Some(p) => p.holds(candidate),
        None => true,
    }
}

/// Some asserted name satisfies the predicate; with no names, none does.
pub open spec fn some_name_holds(p: Matcher, names: Seq<Seq<char>>) -> bool {
    exists|i: int| 0 <= i < names.len() && p.holds(#[trigger] names[i])
}

/// The value of a header, empty when it is missing.
pub open spec fn header_value(
    headers: Map<Seq<char>, Seq<char>>,
    name: Seq<char>,
) -> Seq<char> {
    if headers.dom().contains(name) {
        headers[name]
    } else {
        seq![]
    }
}

/// The header predicate holds of the call.
pub open spec fn header_holds(
    p: (String, Matcher),
    headers: Map<Seq<char>, Seq<char>>,
) -> bool {
    p.1.holds(header_value(headers, lower(p.0@)))
}

impl CompiledMatch {
    /// The block matches: it is unconditional, or every key that it sets holds.
    pub open spec fn holds(self, info: InfoView) -> bool {
        ||| self.any
        ||| {
            &&& key_holds(self.request_uri_user, info.request_uri_user)
            &&& key_holds(self.request_uri_host, info.request_uri_host)
            &&& key_holds(self.to_user, info.to_user)
            &&& key_holds(self.to_host, info.to_host)
            &&& key_holds(self.from_user, info.from_user)
            &&& key_holds(self.from_host, info.from_host)
            &&& key_holds(self.register_source, info.register_source)
            &&& (self.peer_cert_san matches Some(p) ==> some_name_holds(p, info.peer_cert_names))
            &&& forall|j: int|
                0 <= j < self.headers@.len() ==> header_holds(
                    #[trigger] self.headers@[j],
                    info.headers,
                )
        }
    }
}

fn key_matches(m: &Option<Matcher>, candidate: &str) -> (r: bool)
    ensures
        r == key_holds(*m, candidate@),
{
    match m {
        Some(p) => p.matches(candidate),
        None => true,
    }
}

fn any_name_matches(p: &Matcher, names: &[String]) -> (r: bool)
    ensures
        r == some_name_holds(*p, views(names@)),
{
    let mut i: usize = 0;
    while i < names.len()
        invariant
            i <= names@.len(),
            forall|k: int| 0 <= k < i ==> !p.holds(#[trigger] views(names@)[k]),
        decreases names@.len() - i,
    {
        assert(views(names@)[i as int] == names@[i as int]@);
        if p.matches(names[i].as_str()) {
            return true;
        }
        i += 1;
    }
    false
}

fn headers_match(preds: &Vec<(String, Matcher)>, headers: &Headers) -> (r: bool)
    ensures
        r == (forall|j: int|
            0 <= j < preds@.len() ==> header_holds(#[trigger] preds@[j], headers@)),
{
    let mut i: usize = 0;
    while i < preds.len()
        invariant
            i <= preds@.len(),
            forall|j: int| 0 <= j < i ==> header_holds(#[trigger] preds@[j], headers@),
        decreases preds@.len() - i,
    {
        let ok = match headers.get(preds[i].0.as_str()) {
            Some(v) => preds[i].1.matches(v),
            None => {
                proof {
                    reveal_strlit("");
                    assert(""@ =~= Seq::<char>::empty());
                }
                preds[i].1.matches("")
            },
        };
        if !ok {
            assert(!header_holds(preds@[i as int], headers@));
            return false;
        }
        i += 1;
    }
    true
}

impl CompiledRoute {
    /// Whether every predicate of the route's match block holds for `info`.
    pub fn matches(&self, info: &CallInfo<'_>) -> (r: bool)
        ensures
            r == self.match_.holds(info@),
    {
        let m = &self.match_;
        if m.any {
            return true;
        }
        if !key_matches(&m.request_uri_user, info.request_uri_user) {
            return false;
        }
        if !key_matches(&m.request_uri_host, info.request_uri_host) {
            return false;
        }
        if !key_matches(&m.to_user, info.to_user) {
            return false;
        }
        if !key_matches(&m.to_host, info.to_host) {
            return false;
        }
        if !key_matches(&m.from_user, info.from_user) {
            return false;
        }
        if !key_matches(&m.from_host, info.from_host) {
            return false;
        }
        if !key_matches(&m.register_source, info.register_source) {
            return false;
        }
        if let Some(p) = &m.peer_cert_san {
            if !any_name_matches(p, info.peer_cert_names) {
                return false;
            }
        }
        headers_match(&m.headers, info.headers)
    }

    /// Whether the route asks for a name of the client certificate.
    pub fn uses_peer_cert_san(&self) -> (r: bool)
        ensures
            r == (self.match_.peer_cert_san is Some),
    {
        self.match_.peer_cert_san.is_some()
    }
}

/// Compiled routes in file order. Evaluation is top-down; the first match wins.
#[derive(Debug, Clone)]
pub struct RouteSet {
    pub routes: Vec<CompiledRoute>,
}

/// The index of the first route that matches; the length when none does.
pub open spec fn first_match(routes: Seq<CompiledRoute>, info: InfoView) -> int
    decreases routes.len(),
{
    if routes.len() == 0 || routes[0].match_.holds(info) {
        0
    } else {
        1 + first_match(routes.drop_first(), info)
    }
}

impl RouteSet {
    /// The set of these routes, in this order.
    pub fn from_routes(routes: Vec<CompiledRoute>) -> (r: Self)
        ensures
            r.routes == routes,
    {
        RouteSet { routes }
    }

    /// The first route, from the top, whose match block holds; `None` when no
    /// route matches.
    pub fn find_match(&self, info: &CallInfo<'_>) -> (r: Option<&CompiledRoute>)
        ensures
            match r {
                Some(route) => {
                    &&& first_match(self.routes@, info@) < self.routes@.len()
                    &&& *route == self.routes@[first_match(self.routes@, info@)]
                },
                None => first_match(self.routes@, info@) == self.routes@.len(),
            },
    {
        let mut i: usize = 0;
        assert(self.routes@.subrange(0, self.routes@.len() as int) =~= self.routes@);
        while i < self.routes.len()
            invariant
                i <= self.routes@.len(),
                first_match(self.routes@, info@) == i + first_match(
                    self.routes@.subrange(i as int, self.routes@.len() as int),
                    info@,
                ),
            decreases self.routes@.len() - i,
        {
            let ghost rest = self.routes@.subrange(i as int, self.routes@.len() as int);
            if self.routes[i].matches(info) {
                assert(rest[0] == self.routes@[i as int]);
                return Some(&self.routes[i]);
            }
            assert(rest.drop_first() =~= self.routes@.subrange(i + 1, self.routes@.len() as int));
            i += 1;
        }
        None
    }

    /// Whether the last route matches every call.
    pub fn has_default(&self) -> (r: bool)
        ensures
            r == (self.routes@.len() > 0 && self.routes@.last().match_.any),
    {
        let n = self.routes.len();
        n > 0 && self.routes[n - 1].match_.any
    }

    /// How many routes there are.
    pub fn len(&self) -> (r: usize)
        ensures
            r == self.routes@.len(),
    {
        self.routes.len()
    }

    /// Whether there is no route.
    pub fn is_empty(&self) -> (r: bool)
        ensures
            r == (self.routes@.len() == 0),
    {
        self.routes.len() == 0
    }

    /// The routes, in order.
    pub fn iter(&self) -> (r: std::slice::Iter<'_, CompiledRoute>)
        ensures
            vstd::std_specs::iter::IteratorSpec::remaining(&r).unref() == self.routes@,
    {
        self.routes.iter()
    }
}

impl Default for RouteSet {
    fn default() -> (r: Self)
        ensures
            r.routes@ == Seq::<CompiledRoute>::empty(),
    {
        RouteSet { routes: Vec::new() }
    }
}

/// `first_match` is the first: it matches, if there is one, and no route above it does.
pub proof fn the_first_match_wins(routes: Seq<CompiledRoute>, info: InfoView)
    ensures
        0 <= first_match(routes, info) <= routes.len(),
        first_match(routes, info) < routes.len() ==> routes[first_match(
            routes,
            info,
        )].match_.holds(info),
        forall|i: int|
            0 <= i < first_match(routes, info) ==> !(#[trigger] routes[i]).match_.holds(info),
    decreases routes.len(),
{
    if routes.len() > 0 && !routes[0].match_.holds(info) {
        let rest = routes.drop_first();
        the_first_match_wins(rest, info);
        assert forall|i: int| 0 <= i < first_match(routes, info) implies !(
        #[trigger] routes[i]).match_.holds(info) by {
            if i > 0 {
                assert(rest[i - 1] == routes[i]);
            }
        }
    }
}

/// Where the last route matches every call, every call finds a route.
pub proof fn a_default_catches_every_call(routes: Seq<CompiledRoute>, info: InfoView)
    requires
        routes.len() > 0,
        routes.last().match_.any,
    ensures
        first_match(routes, info) < routes.len(),
{
    the_first_match_wins(routes, info);
    assert(routes[routes.len() - 1].match_.holds(info));
}

/// Routes below an unconditional one are never reached.
pub proof fn routes_below_a_catch_all_are_unreachable(
    routes: Seq<CompiledRoute>,
    info: InfoView,
    i: int,
)
    requires
        0 <= i < routes.len(),
        routes[i].match_.any,
    ensures
        first_match(routes, info) <= i,
{
    the_first_match_wins(routes, info);
    assert(routes[i].match_.holds(info));
}

/// A call that presented no verified certificate never takes a route that asks
/// for a certificate name, whatever the pattern.
pub proof fn no_certificate_no_match(m: CompiledMatch, info: InfoView)
    requires
        !m.any,
        m.peer_cert_san is Some,
        info.peer_cert_names.len() == 0,
    ensures
        !m.holds(info),
{
}

/// The keys of a block are joined by "and": a block that matches still matches
/// when it asks for less.
pub proof fn a_block_that_asks_for_less_matches_more(
    more: CompiledMatch,
    less: CompiledMatch,
    info: InfoView,
)
    requires
        more.holds(info),
        !more.any,
        less.request_uri_user is None || less.request_uri_user == more.request_uri_user,
        less.request_uri_host is None || less.request_uri_host == more.request_uri_host,
        less.to_user is None || less.to_user == more.to_user,
        less.to_host is None || less.to_host == more.to_host,
        less.from_user is None || less.from_user == more.from_user,
        less.from_host is None || less.from_host == more.from_host,
        less.register_source is None || less.register_source == more.register_source,
        less.peer_cert_san is None || less.peer_cert_san == more.peer_cert_san,
        forall|j: int|
            0 <= j < less.headers@.len() ==> more.headers@.contains(#[trigger] less.headers@[j]),
    ensures
        less.holds(info),
{
    assert forall|j: int| 0 <= j < less.headers@.len() implies header_holds(
        #[trigger] less.headers@[j],
        info.headers,
    ) by {
        let k = more.headers@.index_of(less.headers@[j]);
        assert(more.headers@[k] == less.headers@[j]);
    }
}

/// A literal asks for its text and no other, but for case: as many characters, and each
/// the one it keeps, with a capital of the candidate read as its small letter.
pub proof fn a_literal_asks_for_its_text(m: &Matcher, want: String, candidate: &str, r: bool)
    requires
        *m == Matcher::Literal(want),
        call_ensures(Matcher::matches, (m, candidate), r),
    ensures
        r <==> want@.len() == candidate@.len() && forall|i: int|
            0 <= i < want@.len() ==> want@[i] as int == (if 'A' <= #[trigger] candidate@[i] <= 'Z' {
                candidate@[i] as int + 32
            } else {
                candidate@[i] as int
            }),
{
    let c = candidate@;
    assert forall|i: int| 0 <= i < c.len() implies (lower(c)[i]) as int == (if 'A'
        <= #[trigger] c[i] <= 'Z' {
        c[i] as int + 32
    } else {
        c[i] as int
    }) by {}
    if want@.len() == c.len() && forall|i: int|
        0 <= i < want@.len() ==> want@[i] as int == (if 'A' <= #[trigger] c[i] <= 'Z' {
            c[i] as int + 32
        } else {
            c[i] as int
        }) {
        assert forall|i: int| 0 <= i < c.len() implies want@[i] == lower(c)[i] by {
            assert(c[i] == c[i]);
        }
        assert(want@ =~= lower(c));
    }
}

/// An expression asks what `regex` says of the whole candidate as it is.
pub proof fn an_expression_asks_its_crate(m: &Matcher, re: regex::Regex, candidate: &str, r: bool)
    requires
        *m == Matcher::Regex(re),
        call_ensures(Matcher::matches, (m, candidate), r),
    ensures
        r == regex_is_match(re, candidate@),
{
}

/// A block that matches a call, other than one that matches every call, has every key
/// that it sets fulfilled by the part of the call that the key is named after.
pub proof fn a_match_fulfills_every_key(route: &CompiledRoute, info: &CallInfo<'_>, r: bool)
    requires
        call_ensures(CompiledRoute::matches, (route, info), r),
        r,
        !route.match_.any,
    ensures
        route.match_.request_uri_user matches Some(p) ==> p.holds(info.request_uri_user@),
        route.match_.request_uri_host matches Some(p) ==> p.holds(info.request_uri_host@),
        route.match_.to_user matches Some(p) ==> p.holds(info.to_user@),
        route.match_.to_host matches Some(p) ==> p.holds(info.to_host@),
        route.match_.from_user matches Some(p) ==> p.holds(info.from_user@),
        route.match_.from_host matches Some(p) ==> p.holds(info.from_host@),
        route.match_.register_source matches Some(p) ==> p.holds(info.register_source@),
        route.match_.peer_cert_san matches Some(p) ==> exists|i: int|
            0 <= i < info.peer_cert_names@.len() && p.holds(
                (#[trigger] info.peer_cert_names@[i])@,
            ),
        forall|j: int|
            0 <= j < route.match_.headers@.len() ==> (#[trigger] route.match_.headers@[j]).1.holds(
                if info.headers@.dom().contains(lower(route.match_.headers@[j].0@)) {
                    info.headers@[lower(route.match_.headers@[j].0@)]
                } else {
                    Seq::empty()
                },
            ),
{
    if let Some(p) = route.match_.peer_cert_san {
        let i = choose|i: int|
            0 <= i < info@.peer_cert_names.len() && p.holds(#[trigger] info@.peer_cert_names[i]);
        assert(info@.peer_cert_names[i] == info.peer_cert_names@[i]@);
    }
    assert forall|j: int| 0 <= j < route.match_.headers@.len() implies (
    #[trigger] route.match_.headers@[j]).1.holds(
        if info.headers@.dom().contains(lower(route.match_.headers@[j].0@)) {
            info.headers@[lower(route.match_.headers@[j].0@)]
        } else {
            Seq::empty()
        },
    ) by {
        assert(header_holds(route.match_.headers@[j], info@.headers));
    }
}

/// A block matches a call as soon as every key that it sets is fulfilled by the part of
/// the call that the key is named after, and a block that matches every call does so
/// whatever the call is.
pub proof fn a_call_that_fulfills_every_key_matches(
    route: &CompiledRoute,
    info: &CallInfo<'_>,
    r: bool,
)
    requires
        call_ensures(CompiledRoute::matches, (route, info), r),
        route.match_.any || {
            &&& route.match_.request_uri_user matches Some(p) ==> p.holds(info.request_uri_user@)
            &&& route.match_.request_uri_host matches Some(p) ==> p.holds(info.request_uri_host@)
            &&& route.match_.to_user matches Some(p) ==> p.holds(info.to_user@)
            &&& route.match_.to_host matches Some(p) ==> p.holds(info.to_host@)
            &&& route.match_.from_user matches Some(p) ==> p.holds(info.from_user@)
            &&& route.match_.from_host matches Some(p) ==> p.holds(info.from_host@)
            &&& route.match_.register_source matches Some(p) ==> p.holds(info.register_source@)
            &&& route.match_.peer_cert_san matches Some(p) ==> exists|i: int|
                0 <= i < info.peer_cert_names@.len() && p.holds(
                    (#[trigger] info.peer_cert_names@[i])@,
                )
            &&& forall|j: int|
                0 <= j < route.match_.headers@.len() ==> (
                #[trigger] route.match_.headers@[j]).1.holds(
                    if info.headers@.dom().contains(lower(route.match_.headers@[j].0@)) {
                        info.headers@[lower(route.match_.headers@[j].0@)]
                    } else {
                        Seq::empty()
                    },
                )
        },
    ensures
        r,
{
    if !route.match_.any {
        if let Some(p) = route.match_.peer_cert_san {
            let i = choose|i: int|
                0 <= i < info.peer_cert_names@.len() && p.holds(
                    (#[trigger] info.peer_cert_names@[i])@,
                );
            assert(info@.peer_cert_names[i] == info.peer_cert_names@[i]@);
            assert(some_name_holds(p, info@.peer_cert_names));
        }
        assert forall|j: int| 0 <= j < route.match_.headers@.len() implies header_holds(
            #[trigger] route.match_.headers@[j],
            info@.headers,
        ) by {}
    }
}

/// The route that is found is one of the set and matches; none above it does; and where
/// none is found, none of the set matches.
pub proof fn the_route_found_is_the_first_that_matches(
    set: &RouteSet,
    info: &CallInfo<'_>,
    r: Option<&CompiledRoute>,
    asked: int,
    matched: bool,
)
    requires
        call_ensures(RouteSet::find_match, (set, info), r),
        0 <= asked < set.routes@.len(),
        call_ensures(CompiledRoute::matches, (&set.routes@[asked], info), matched),
    ensures
        r is None ==> !matched,
        matched ==> exists|k: int| 0 <= k <= asked && *r->0 == #[trigger] set.routes@[k],
        r matches Some(route) ==> exists|k: int|
            0 <= k < set.routes@.len() && *route == #[trigger] set.routes@[k] && (asked < k
                ==> !matched) && (asked == k ==> matched),
{
    the_first_match_wins(set.routes@, info@);
    let k = first_match(set.routes@, info@);
    if r is Some {
        assert(*r->0 == set.routes@[k]);
    }
}

/// A set has the routes that it is made of, in their order, and tells how many; it has a
/// default exactly when the last of them matches every call.
pub proof fn a_set_has_its_routes(
    routes: Vec<CompiledRoute>,
    set: RouteSet,
    n: usize,
    none: bool,
    default: bool,
    empty: RouteSet,
    nothing: bool,
)
    requires
        call_ensures(RouteSet::from_routes, (routes,), set),
        call_ensures(RouteSet::len, (&set,), n),
        call_ensures(RouteSet::is_empty, (&set,), none),
        call_ensures(RouteSet::has_default, (&set,), default),
        call_ensures(RouteSet::default, (), empty),
        call_ensures(RouteSet::is_empty, (&empty,), nothing),
    ensures
        set.routes == routes,
        n == routes@.len(),
        none <==> n == 0,
        n == 0 ==> !default,
        n > 0 ==> (default <==> routes@[n - 1].match_.any),
        nothing,
{
}

/// A route needs the names of the client certificate exactly when it asks for one.
pub proof fn a_route_tells_whether_it_asks_for_a_certificate(route: &CompiledRoute, r: bool)
    requires
        call_ensures(CompiledRoute::uses_peer_cert_san, (route,), r),
    ensures
        r <==> route.match_.peer_cert_san is Some,
{
}

} // verus!
