//! From a dialplan as written to a route set.
//!
//! Compilation stops at the first error. Names are compared first: two routes
//! may not share one. Then each route is compiled in file order: its name, its
//! match block, its TLS material.
use vstd::prelude::*;

use crate::routes::call_info::InfoView;
use crate::routes::compiled::{
    compile_regex, header_holds, header_value, regex_is_match, regex_new, some_name_holds,
    BridgeTlsConfig, CompiledMatch, CompiledRoute, Matcher, RouteSet,
};
use crate::routes::raw::{BridgeTlsOverride, RawRoute, RawRouteFile, RawRouteMatch};
use crate::text::{
    concat, debug_form, debug_quoted, decimal, decimal_string, lower, lower_is_idempotent, str_eq, to_ascii_lowercase,
    trim, trimmed,
};

verus! {

/// Why a dialplan does not compile. Routes are counted from 0.
#[derive(Debug, Clone)]
pub enum RouteError<S> {
    EmptyName { index: usize, name: S },
    EmptyMatch { index: usize, name: S },
    AnyWithOtherKeys { index: usize, name: S },
    BadRegex { index: usize, name: S, key: S, err: S },
    DuplicateHeader { index: usize, name: S, header: S },
    DuplicateName { name: S, first: usize, second: usize },
    BadBridgeTls { index: usize, name: S, source: S },
}

impl RouteError<String> {
    /// The same error over the views of its texts.
    pub open spec fn text(self) -> RouteError<Seq<char>> {
        match self {
            RouteError::EmptyName { index, name } => RouteError::EmptyName { index, name: name@ },
            RouteError::EmptyMatch { index, name } => RouteError::EmptyMatch { index, name: name@ },
            RouteError::AnyWithOtherKeys { index, name } => RouteError::AnyWithOtherKeys {
                index,
                name: name@,
            },
            RouteError::BadRegex { index, name, key, err } => RouteError::BadRegex {
                index,
                name: name@,
                key: key@,
                err: err@,
            },
            RouteError::DuplicateHeader { index, name, header } => RouteError::DuplicateHeader {
                index,
                name: name@,
                header: header@,
            },
            RouteError::DuplicateName { name, first, second } => RouteError::DuplicateName {
                name: name@,
                first,
                second,
            },
            RouteError::BadBridgeTls { index, name, source } => RouteError::BadBridgeTls {
                index,
                name: name@,
                source: source@,
            },
        }
    }

    /// The error as one line of text.
    pub fn message(&self) -> (r: String)
        ensures
            r@ == message_of(self.text()),
    {
        match self {
            RouteError::EmptyName { index, name } => {
                let mut r = route_label(*index, name.as_str());
                r.push_str(" has an empty name");
                r
            },
            RouteError::EmptyMatch { index, name } => {
                let mut r = route_label(*index, name.as_str());
                r.push_str(
                    " has an empty match block — set `any = true` for an unconditional match",
                );
                r
            },
            RouteError::AnyWithOtherKeys { index, name } => {
                let mut r = route_label(*index, name.as_str());
                r.push_str(
                    " sets `any = true` together with other match keys; `any` must be exclusive",
                );
                r
            },
            RouteError::BadRegex { index, name, key, err } => {
                let mut r = route_label(*index, name.as_str());
                r.push_str(" match key ");
                r.push_str(debug_quoted(key.as_str()).as_str());
                r.push_str(" is not a valid regex: ");
                r.push_str(err.as_str());
                r
            },
            RouteError::DuplicateHeader { index, name, header } => {
                let mut r = route_label(*index, name.as_str());
                r.push_str(" declares duplicate header ");
                r.push_str(debug_quoted(header.as_str()).as_str());
                r
            },
            RouteError::DuplicateName { name, first, second } => {
                let mut r = concat("two routes share name ", debug_quoted(name.as_str()).as_str());
                r.push_str(" (#");
                r.push_str(decimal_string(*first as u64).as_str());
                r.push_str(" and #");
                r.push_str(decimal_string(*second as u64).as_str());
                r.push_str("); names must be unique");
                r
            },
            RouteError::BadBridgeTls { index, name, source } => {
                let mut r = route_label(*index, name.as_str());
                r.push_str(" [route.bridge.tls] is invalid: ");
                r.push_str(source.as_str());
                r
            },
        }
    }
}

/// How a message names a route.
pub open spec fn label_of(index: usize, name: Seq<char>) -> Seq<char> {
    "route #"@ + decimal(index as nat) + " ("@ + debug_form(name) + ")"@
}

/// The text of each error.
pub open spec fn message_of(e: RouteError<Seq<char>>) -> Seq<char> {
    match e {
        RouteError::EmptyName { index, name } => label_of(index, name) + " has an empty name"@,
        RouteError::EmptyMatch { index, name } => label_of(index, name)
            + " has an empty match block — set `any = true` for an unconditional match"@,
        RouteError::AnyWithOtherKeys { index, name } => label_of(index, name)
            + " sets `any = true` together with other match keys; `any` must be exclusive"@,
        RouteError::BadRegex { index, name, key, err } => label_of(index, name) + " match key "@
            + debug_form(key) + " is not a valid regex: "@ + err,
        RouteError::DuplicateHeader { index, name, header } => label_of(index, name)
            + " declares duplicate header "@ + debug_form(header),
        RouteError::DuplicateName { name, first, second } => "two routes share name "@ + debug_form(
            name,
        ) + " (#"@ + decimal(first as nat) + " and #"@ + decimal(second as nat)
            + "); names must be unique"@,
        RouteError::BadBridgeTls { index, name, source } => label_of(index, name)
            + " [route.bridge.tls] is invalid: "@ + source,
    }
}

fn route_label(index: usize, name: &str) -> (r: String)
    ensures
        r@ == label_of(index, name@),
{
    let mut r = concat("route #", decimal_string(index as u64).as_str());
    r.push_str(" (");
    r.push_str(debug_quoted(name).as_str());
    r.push_str(")");
    r
}

// ---- What compilation finds wrong ----

/// The first of two findings.
pub open spec fn first_of(
    a: Option<RouteError<Seq<char>>>,
    b: Option<RouteError<Seq<char>>>,
) -> Option<RouteError<Seq<char>>> {
    if a is Some {
        a
    } else {
        b
    }
}

/// Where in `names` the name `x` first occurs, from `k` on; the length when it
/// does not.
pub open spec fn first_use(names: Seq<Seq<char>>, x: Seq<char>, k: int) -> int
    decreases names.len() - k,
{
    if k >= names.len() || names[k] == x {
        k
    } else {
        first_use(names, x, k + 1)
    }
}

/// The first name, from the `i`th on, that an earlier route has: the error names
/// the earliest such route.
pub open spec fn name_fault(names: Seq<Seq<char>>, i: int) -> Option<RouteError<Seq<char>>>
    decreases names.len() - i,
{
    if i >= names.len() {
        None
    } else if first_use(names, names[i], 0) < i {
        Some(
            RouteError::DuplicateName {
                name: names[i],
                first: first_use(names, names[i], 0) as usize,
                second: i as usize,
            },
        )
    } else {
        name_fault(names, i + 1)
    }
}

/// The names of the routes.
pub open spec fn route_names(routes: Seq<RawRoute>) -> Seq<Seq<char>> {
    Seq::new(routes.len(), |i: int| routes[i].name@)
}

/// In a `regex = true` block every string must compile.
pub open spec fn pattern_fault(
    index: usize,
    name: Seq<char>,
    key: Seq<char>,
    value: Seq<char>,
    regex: bool,
) -> Option<RouteError<Seq<char>>> {
    match (regex, regex_new(value)) {
        (true, Err(err)) => Some(RouteError::BadRegex { index, name, key, err }),
        _ => None,
    }
}

/// The same for a key that may be unset.
pub open spec fn key_fault(
    index: usize,
    name: Seq<char>,
    key: Seq<char>,
    value: Option<String>,
    regex: bool,
) -> Option<RouteError<Seq<char>>> {
    match value {
        Some(v) => pattern_fault(index, name, key, v@, regex),
        None => None,
    }
}

/// A header earlier than the `j`th has the same name, but for case.
pub open spec fn header_repeats(header: Seq<(String, String)>, j: int) -> bool {
    exists|k: int| 0 <= k < j && lower((#[trigger] header[k]).0@) == lower(header[j].0@)
}

/// The first thing wrong with a header predicate, from the `j`th on.
pub open spec fn header_fault(
    index: usize,
    name: Seq<char>,
    header: Seq<(String, String)>,
    regex: bool,
    j: int,
) -> Option<RouteError<Seq<char>>>
    decreases header.len() - j,
{
    if j >= header.len() {
        None
    } else if header_repeats(header, j) {
        Some(RouteError::DuplicateHeader { index, name, header: header[j].0@ })
    } else {
        first_of(
            pattern_fault(index, name, "header."@ + header[j].0@, header[j].1@, regex),
            header_fault(index, name, header, regex, j + 1),
        )
    }
}

/// The first thing wrong with a match block. `any` excludes every other key, and
/// a block must ask for something.
pub open spec fn match_fault(index: usize, name: Seq<char>, raw: RawRouteMatch) -> Option<
    RouteError<Seq<char>>,
> {
    if raw.any && raw.has_predicates() {
        Some(RouteError::AnyWithOtherKeys { index, name })
    } else if !raw.any && !raw.has_predicates() {
        Some(RouteError::EmptyMatch { index, name })
    } else {
        first_of(
            header_fault(index, name, raw.header@, raw.regex, 0),
            first_of(
                key_fault(index, name, "request_uri_user"@, raw.request_uri_user, raw.regex),
                first_of(
                    key_fault(index, name, "request_uri_host"@, raw.request_uri_host, raw.regex),
                    first_of(
                        key_fault(index, name, "to_user"@, raw.to_user, raw.regex),
                        first_of(
                            key_fault(index, name, "to_host"@, raw.to_host, raw.regex),
                            first_of(
                                key_fault(index, name, "from_user"@, raw.from_user, raw.regex),
                                first_of(
                                    key_fault(index, name, "from_host"@, raw.from_host, raw.regex),
                                    first_of(
                                        key_fault(
                                            index,
                                            name,
                                            "register_source"@,
                                            raw.register_source,
                                            raw.regex,
                                        ),
                                        key_fault(
                                            index,
                                            name,
                                            "peer_cert_san"@,
                                            raw.peer_cert_san,
                                            raw.regex,
                                        ),
                                    ),
                                ),
                            ),
                        ),
                    ),
                ),
            ),
        )
    }
}

/// What reading the files of one `[route.bridge.tls]` block gave.
#[derive(Debug)]
pub struct TlsLoad {
    pub files: BridgeTlsOverride,
    pub outcome: Result<BridgeTlsConfig, String>,
}

/// Two blocks name the same files and the same pin.
pub open spec fn same_files(a: BridgeTlsOverride, b: BridgeTlsOverride) -> bool {
    &&& a.client_cert@ == b.client_cert@
    &&& a.client_key@ == b.client_key@
    &&& match (a.pinned_sha256, b.pinned_sha256) {
        (Some(p), Some(q)) => p@ == q@,
        (None, None) => true,
        _ => false,
    }
}

/// Where in `loads`, from `k` on, the files of `tls` first stand; the length
/// when they do not.
pub open spec fn load_of(loads: Seq<TlsLoad>, tls: BridgeTlsOverride, k: int) -> int
    decreases loads.len() - k,
{
    if k >= loads.len() || same_files(loads[k].files, tls) {
        k
    } else {
        load_of(loads, tls, k + 1)
    }
}

/// The reason given when the files of a block were not read.
pub const NOT_LOADED: &'static str = "the certificate and key were not loaded";

/// A `[route.bridge.tls]` block must have been read without error.
pub open spec fn tls_fault(
    index: usize,
    name: Seq<char>,
    tls: Option<BridgeTlsOverride>,
    loads: Seq<TlsLoad>,
) -> Option<RouteError<Seq<char>>> {
    match tls {
        None => None,
        Some(t) => {
            let k = load_of(loads, t, 0);
            if k >= loads.len() {
                Some(RouteError::BadBridgeTls { index, name, source: NOT_LOADED@ })
            } else {
                match loads[k].outcome {
                    Ok(_) => None,
                    Err(source) => Some(
                        RouteError::BadBridgeTls { index, name, source: source@ },
                    ),
                }
            }
        },
    }
}

/// The first thing wrong with one route.
pub open spec fn route_fault(index: usize, raw: RawRoute, loads: Seq<TlsLoad>) -> Option<
    RouteError<Seq<char>>,
> {
    if trimmed(raw.name@).len() == 0 {
        Some(RouteError::EmptyName { index, name: raw.name@ })
    } else {
        first_of(
            match_fault(index, raw.name@, raw.match_),
            tls_fault(index, raw.name@, raw.bridge.tls, loads),
        )
    }
}

/// The first thing wrong with the routes from the `i`th on.
pub open spec fn routes_fault(routes: Seq<RawRoute>, loads: Seq<TlsLoad>, i: int) -> Option<
    RouteError<Seq<char>>,
>
    decreases routes.len() - i,
{
    if i >= routes.len() {
        None
    } else {
        first_of(
            route_fault(i as usize, routes[i], loads),
            routes_fault(routes, loads, i + 1),
        )
    }
}

/// The first thing wrong with a file: shared names come before everything else.
pub open spec fn file_fault(routes: Seq<RawRoute>, loads: Seq<TlsLoad>) -> Option<
    RouteError<Seq<char>>,
> {
    first_of(name_fault(route_names(routes), 0), routes_fault(routes, loads, 0))
}

// ---- What compilation makes ----

/// `m` is the predicate that `value` asks for.
pub open spec fn matcher_of(m: Matcher, value: Seq<char>, regex: bool) -> bool {
    match m {
        Matcher::Literal(want) => !regex && want@ == lower(value),
        Matcher::Regex(re) => regex && regex_new(value) == Ok::<regex::Regex, Seq<char>>(re),
    }
}

/// The same for a key that may be unset.
pub open spec fn key_of(m: Option<Matcher>, value: Option<String>, regex: bool) -> bool {
    match (m, value) {
        (Some(p), Some(v)) => matcher_of(p, v@, regex),
        (None, None) => true,
        _ => false,
    }
}

/// The header predicates: names in lower case, in order.
pub open spec fn headers_of(
    h: Seq<(String, Matcher)>,
    header: Seq<(String, String)>,
    regex: bool,
) -> bool {
    &&& h.len() == header.len()
    &&& forall|j: int|
        0 <= j < h.len() ==> (#[trigger] h[j]).0@ == lower(header[j].0@) && matcher_of(
            h[j].1,
            header[j].1@,
            regex,
        )
}

/// `m` is the match block that `raw` describes.
pub open spec fn match_of(m: CompiledMatch, raw: RawRouteMatch) -> bool {
    &&& m.any == raw.any
    &&& key_of(m.request_uri_user, raw.request_uri_user, raw.regex)
    &&& key_of(m.request_uri_host, raw.request_uri_host, raw.regex)
    &&& key_of(m.to_user, raw.to_user, raw.regex)
    &&& key_of(m.to_host, raw.to_host, raw.regex)
    &&& key_of(m.from_user, raw.from_user, raw.regex)
    &&& key_of(m.from_host, raw.from_host, raw.regex)
    &&& key_of(m.register_source, raw.register_source, raw.regex)
    &&& key_of(m.peer_cert_san, raw.peer_cert_san, raw.regex)
    &&& headers_of(m.headers@, raw.header@, raw.regex)
}

/// `c` holds what the load for the route's TLS block gave; nothing without a
/// block.
pub open spec fn tls_of(
    c: Option<BridgeTlsConfig>,
    tls: Option<BridgeTlsOverride>,
    loads: Seq<TlsLoad>,
) -> bool {
    match (c, tls) {
        (Some(cfg), Some(t)) => {
            let k = load_of(loads, t, 0);
            &&& 0 <= k < loads.len()
            &&& match loads[k].outcome {
                Ok(have) => same_material(cfg, have),
                Err(_) => false,
            }
        },
        (None, None) => true,
        _ => false,
    }
}

/// The same bytes and the same pin.
pub open spec fn same_material(a: BridgeTlsConfig, b: BridgeTlsConfig) -> bool {
    &&& a.client_cert@ == b.client_cert@
    &&& a.client_key@ == b.client_key@
    &&& a.pinned_sha256 == b.pinned_sha256
}

/// `c` is the route that `raw` describes: overrides are carried over as they are.
pub open spec fn route_of(c: CompiledRoute, raw: RawRoute, loads: Seq<TlsLoad>) -> bool {
    &&& c.name == raw.name
    &&& match_of(c.match_, raw.match_)
    &&& c.bridge == raw.bridge
    &&& c.media == raw.media
    &&& c.security == raw.security
    &&& c.recording == raw.recording
    &&& tls_of(c.bridge_tls, raw.bridge.tls, loads)
}

/// `set` holds the routes that `routes` describe, in the same order.
pub open spec fn set_of(
    set: Seq<CompiledRoute>,
    routes: Seq<RawRoute>,
    loads: Seq<TlsLoad>,
) -> bool {
    &&& set.len() == routes.len()
    &&& forall|i: int| 0 <= i < set.len() ==> route_of(#[trigger] set[i], routes[i], loads)
}

// ---- The compiler ----

/// Compiles a file whose routes set no TLS block. A route that sets one is
/// refused: nothing has been read for it.
pub fn compile(file: RawRouteFile) -> (r: Result<RouteSet, RouteError<String>>)
    ensures
        match r {
            Ok(set) => file_fault(file.routes@, seq![]) is None && set_of(
                set.routes@,
                file.routes@,
                seq![],
            ),
            Err(e) => file_fault(file.routes@, seq![]) == Some(e.text()),
        },
{
    let loads: Vec<TlsLoad> = Vec::new();
    assert(loads@ =~= seq![]);
    compile_with_tls(file, &loads)
}

/// Compiles a file, given what reading the files of its TLS blocks gave.
pub fn compile_with_tls(file: RawRouteFile, loads: &Vec<TlsLoad>) -> (r: Result<
    RouteSet,
    RouteError<String>,
>)
    ensures
        match r {
            Ok(set) => file_fault(file.routes@, loads@) is None && set_of(
                set.routes@,
                file.routes@,
                loads@,
            ),
            Err(e) => file_fault(file.routes@, loads@) == Some(e.text()),
        },
{
    if let Err(e) = check_names(&file.routes) {
        return Err(e);
    }
    let ghost raws = file.routes@;
    let mut rest: Vec<RawRoute> = file.routes;
    let mut compiled: Vec<CompiledRoute> = Vec::new();
    let n = rest.len();
    let mut i: usize = 0;
    while i < n
        invariant
            raws == file.routes@,
            n == raws.len(),
            i <= n,
            rest@ == raws.subrange(i as int, n as int),
            name_fault(route_names(raws), 0) is None,
            routes_fault(raws, loads@, 0) == routes_fault(raws, loads@, i as int),
            compiled@.len() == i,
            forall|k: int| 0 <= k < i ==> route_of(#[trigger] compiled@[k], raws[k], loads@),
        decreases n - i,
    {
        let raw = rest.remove(0);
        assert(raw == raws[i as int]);
        assert(routes_fault(raws, loads@, i as int) == first_of(
            route_fault(i, raw, loads@),
            routes_fault(raws, loads@, i + 1),
        ));
        match compile_one(i, raw, loads) {
            Err(e) => {
                return Err(e);
            },
            Ok(c) => {
                compiled.push(c);
            },
        }
        assert(raws.subrange(i as int, n as int).remove(0) =~= raws.subrange(i + 1, n as int));
        i += 1;
    }
    Ok(RouteSet::from_routes(compiled))
}

fn check_names(routes: &Vec<RawRoute>) -> (r: Result<(), RouteError<String>>)
    ensures
        match r {
            Ok(_) => name_fault(route_names(routes@), 0) is None,
            Err(e) => name_fault(route_names(routes@), 0) == Some(e.text()),
        },
{
    let ghost names = route_names(routes@);
    let n = routes.len();
    let mut i: usize = 0;
    while i < n
        invariant
            n == routes@.len(),
            i <= n,
            names == route_names(routes@),
            name_fault(names, 0) == name_fault(names, i as int),
        decreases n - i,
    {
        let mut j: usize = 0;
        while j < i
            invariant
                n == routes@.len(),
                j <= i < n,
                names == route_names(routes@),
                name_fault(names, 0) == name_fault(names, i as int),
                first_use(names, names[i as int], 0) == first_use(names, names[i as int], j as int),
            decreases i - j,
        {
            if str_eq(routes[i].name.as_str(), routes[j].name.as_str()) {
                return Err(
                    RouteError::DuplicateName { name: routes[i].name.clone(), first: j, second: i },
                );
            }
            j += 1;
        }
        i += 1;
    }
    Ok(())
}

fn compile_one(index: usize, route: RawRoute, loads: &Vec<TlsLoad>) -> (r: Result<
    CompiledRoute,
    RouteError<String>,
>)
    ensures
        match r {
            Ok(c) => route_fault(index, route, loads@) is None && route_of(c, route, loads@),
            Err(e) => route_fault(index, route, loads@) == Some(e.text()),
        },
{
    if trim(route.name.as_str()).unicode_len() == 0 {
        return Err(RouteError::EmptyName { index, name: route.name.clone() });
    }
    let match_ = match compile_match(index, &route.name, &route.match_) {
        Ok(m) => m,
        Err(e) => {
            return Err(e);
        },
    };
    let bridge_tls = match compile_bridge_tls(index, &route.name, &route.bridge.tls, loads) {
        Ok(t) => t,
        Err(e) => {
            return Err(e);
        },
    };
    Ok(
        CompiledRoute {
            name: route.name,
            match_,
            bridge: route.bridge,
            media: route.media,
            security: route.security,
            recording: route.recording,
            bridge_tls,
        },
    )
}

fn files_equal(a: &BridgeTlsOverride, b: &BridgeTlsOverride) -> (r: bool)
    ensures
        r == same_files(*a, *b),
{
    str_eq(a.client_cert.as_str(), b.client_cert.as_str()) && str_eq(
        a.client_key.as_str(),
        b.client_key.as_str(),
    ) && match (&a.pinned_sha256, &b.pinned_sha256) {
        (Some(p), Some(q)) => str_eq(p.as_str(), q.as_str()),
        (None, None) => true,
        _ => false,
    }
}

fn copy_material(c: &BridgeTlsConfig) -> (r: BridgeTlsConfig)
    ensures
        same_material(r, *c),
{
    let cert = c.client_cert.clone();
    let key = c.client_key.clone();
    assert(cert@ =~= c.client_cert@);
    assert(key@ =~= c.client_key@);
    BridgeTlsConfig {
        client_cert: cert,
        client_key: key,
        pinned_sha256: match &c.pinned_sha256 {
            Some(p) => Some(p.clone()),
            None => None,
        },
    }
}

fn compile_bridge_tls(
    index: usize,
    name: &String,
    tls: &Option<BridgeTlsOverride>,
    loads: &Vec<TlsLoad>,
) -> (r: Result<Option<BridgeTlsConfig>, RouteError<String>>)
    ensures
        match r {
            Ok(c) => tls_fault(index, name@, *tls, loads@) is None && tls_of(c, *tls, loads@),
            Err(e) => tls_fault(index, name@, *tls, loads@) == Some(e.text()),
        },
{
    let t = match tls {
        None => {
            return Ok(None);
        },
        Some(t) => t,
    };
    let mut k: usize = 0;
    while k < loads.len()
        invariant
            k <= loads@.len(),
            *tls == Some(*t),
            load_of(loads@, *t, 0) == load_of(loads@, *t, k as int),
        decreases loads@.len() - k,
    {
        if files_equal(&loads[k].files, t) {
            return match &loads[k].outcome {
                Ok(c) => Ok(Some(copy_material(c))),
                Err(source) => Err(
                    RouteError::BadBridgeTls {
                        index,
                        name: name.clone(),
                        source: source.clone(),
                    },
                ),
            };
        }
        k += 1;
    }
    Err(RouteError::BadBridgeTls { index, name: name.clone(), source: NOT_LOADED.to_owned() })
}

fn build_matcher(
    index: usize,
    name: &String,
    key: &str,
    value: &String,
    is_regex: bool,
) -> (r: Result<Matcher, RouteError<String>>)
    ensures
        match r {
            Ok(m) => pattern_fault(index, name@, key@, value@, is_regex) is None && matcher_of(
                m,
                value@,
                is_regex,
            ),
            Err(e) => pattern_fault(index, name@, key@, value@, is_regex) == Some(e.text()),
        },
{
    if is_regex {
        match compile_regex(value.as_str()) {
            Ok(re) => Ok(Matcher::Regex(re)),
            Err(err) => Err(
                RouteError::BadRegex { index, name: name.clone(), key: key.to_owned(), err },
            ),
        }
    } else {
        Ok(Matcher::Literal(to_ascii_lowercase(value.as_str())))
    }
}

fn build_key(
    index: usize,
    name: &String,
    key: &str,
    value: &Option<String>,
    is_regex: bool,
) -> (r: Result<Option<Matcher>, RouteError<String>>)
    ensures
        match r {
            Ok(m) => key_fault(index, name@, key@, *value, is_regex) is None && key_of(
                m,
                *value,
                is_regex,
            ),
            Err(e) => key_fault(index, name@, key@, *value, is_regex) == Some(e.text()),
        },
{
    match value {
        None => Ok(None),
        Some(v) => match build_matcher(index, name, key, v, is_regex) {
            Ok(m) => Ok(Some(m)),
            Err(e) => Err(e),
        },
    }
}

fn repeats(header: &Vec<(String, String)>, j: usize) -> (r: bool)
    requires
        j < header@.len(),
    ensures
        r == header_repeats(header@, j as int),
{
    let lower_name = to_ascii_lowercase(header[j].0.as_str());
    let mut k: usize = 0;
    while k < j
        invariant
            k <= j < header@.len(),
            lower_name@ == lower(header@[j as int].0@),
            forall|q: int| 0 <= q < k ==> lower((#[trigger] header@[q]).0@) != lower_name@,
        decreases j - k,
    {
        let other = to_ascii_lowercase(header[k].0.as_str());
        if other == lower_name {
            return true;
        }
        k += 1;
    }
    false
}

fn build_headers(
    index: usize,
    name: &String,
    header: &Vec<(String, String)>,
    is_regex: bool,
) -> (r: Result<Vec<(String, Matcher)>, RouteError<String>>)
    ensures
        match r {
            Ok(h) => header_fault(index, name@, header@, is_regex, 0) is None && headers_of(
                h@,
                header@,
                is_regex,
            ),
            Err(e) => header_fault(index, name@, header@, is_regex, 0) == Some(e.text()),
        },
{
    let mut headers: Vec<(String, Matcher)> = Vec::new();
    let mut j: usize = 0;
    while j < header.len()
        invariant
            j <= header@.len(),
            headers@.len() == j,
            header_fault(index, name@, header@, is_regex, 0) == header_fault(
                index,
                name@,
                header@,
                is_regex,
                j as int,
            ),
            forall|k: int|
                0 <= k < j ==> (#[trigger] headers@[k]).0@ == lower(header@[k].0@) && matcher_of(
                    headers@[k].1,
                    header@[k].1@,
                    is_regex,
                ),
        decreases header@.len() - j,
    {
        if repeats(header, j) {
            return Err(
                RouteError::DuplicateHeader {
                    index,
                    name: name.clone(),
                    header: header[j].0.clone(),
                },
            );
        }
        let key = concat("header.", header[j].0.as_str());
        let m = match build_matcher(index, name, key.as_str(), &header[j].1, is_regex) {
            Ok(m) => m,
            Err(e) => {
                return Err(e);
            },
        };
        headers.push((to_ascii_lowercase(header[j].0.as_str()), m));
        j += 1;
    }
    Ok(headers)
}

fn compile_match(index: usize, name: &String, raw: &RawRouteMatch) -> (r: Result<
    CompiledMatch,
    RouteError<String>,
>)
    ensures
        match r {
            Ok(m) => match_fault(index, name@, *raw) is None && match_of(m, *raw),
            Err(e) => match_fault(index, name@, *raw) == Some(e.text()),
        },
{
    let has_other_keys = raw.request_uri_user.is_some() || raw.request_uri_host.is_some()
        || raw.to_user.is_some() || raw.to_host.is_some() || raw.from_user.is_some()
        || raw.from_host.is_some() || raw.register_source.is_some() || raw.peer_cert_san.is_some()
        || raw.header.len() > 0;
    if raw.any && has_other_keys {
        return Err(RouteError::AnyWithOtherKeys { index, name: name.clone() });
    }
    if !raw.any && !has_other_keys {
        return Err(RouteError::EmptyMatch { index, name: name.clone() });
    }
    let headers = build_headers(index, name, &raw.header, raw.regex)?;
    let request_uri_user = build_key(
        index,
        name,
        "request_uri_user",
        &raw.request_uri_user,
        raw.regex,
    )?;
    let request_uri_host = build_key(
        index,
        name,
        "request_uri_host",
        &raw.request_uri_host,
        raw.regex,
    )?;
    let to_user = build_key(index, name, "to_user", &raw.to_user, raw.regex)?;
    let to_host = build_key(index, name, "to_host", &raw.to_host, raw.regex)?;
    let from_user = build_key(index, name, "from_user", &raw.from_user, raw.regex)?;
    let from_host = build_key(index, name, "from_host", &raw.from_host, raw.regex)?;
    let register_source = build_key(
        index,
        name,
        "register_source",
        &raw.register_source,
        raw.regex,
    )?;
    let peer_cert_san = build_key(index, name, "peer_cert_san", &raw.peer_cert_san, raw.regex)?;
    Ok(
        CompiledMatch {
            any: raw.any,
            request_uri_user,
            request_uri_host,
            to_user,
            to_host,
            from_user,
            from_host,
            register_source,
            peer_cert_san,
            headers,
        },
    )
}

// ---- What a compiled dialplan means ----

/// `candidate` is what `value` asks for: equal but for case, or matched by the
/// expression.
pub open spec fn text_holds(value: Seq<char>, regex: bool, candidate: Seq<char>) -> bool {
    if regex {
        match regex_new(value) {
            Ok(re) => regex_is_match(re, candidate),
            Err(_) => false,
        }
    } else {
        lower(value) == lower(candidate)
    }
}

/// A key that is not set asks nothing.
pub open spec fn written_key_holds(
    value: Option<String>,
    regex: bool,
    candidate: Seq<char>,
) -> bool {
    match value {
        Some(v) => text_holds(v@, regex, candidate),
        None => true,
    }
}

/// The block as written matches the call.
pub open spec fn written_holds(raw: RawRouteMatch, info: InfoView) -> bool {
    ||| raw.any
    ||| {
        &&& written_key_holds(raw.request_uri_user, raw.regex, info.request_uri_user)
        &&& written_key_holds(raw.request_uri_host, raw.regex, info.request_uri_host)
        &&& written_key_holds(raw.to_user, raw.regex, info.to_user)
        &&& written_key_holds(raw.to_host, raw.regex, info.to_host)
        &&& written_key_holds(raw.from_user, raw.regex, info.from_user)
        &&& written_key_holds(raw.from_host, raw.regex, info.from_host)
        &&& written_key_holds(raw.register_source, raw.regex, info.register_source)
        &&& (raw.peer_cert_san matches Some(v) ==> exists|i: int|
            0 <= i < info.peer_cert_names.len() && text_holds(
                v@,
                raw.regex,
                #[trigger] info.peer_cert_names[i],
            ))
        &&& forall|j: int|
            0 <= j < raw.header@.len() ==> text_holds(
                (#[trigger] raw.header@[j]).1@,
                raw.regex,
                header_value(info.headers, lower(raw.header@[j].0@)),
            )
    }
}

proof fn a_matcher_means_what_is_written(
    m: Matcher,
    value: Seq<char>,
    regex: bool,
    candidate: Seq<char>,
)
    requires
        matcher_of(m, value, regex),
    ensures
        m.holds(candidate) == text_holds(value, regex, candidate),
{
}

/// A compiled match block accepts exactly the calls that the block as written
/// describes.
pub proof fn compilation_keeps_the_meaning(m: CompiledMatch, raw: RawRouteMatch, info: InfoView)
    requires
        match_of(m, raw),
    ensures
        m.holds(info) == written_holds(raw, info),
{
    match (m.peer_cert_san, raw.peer_cert_san) {
        (Some(p), Some(v)) => {
            assert forall|i: int| 0 <= i < info.peer_cert_names.len() implies p.holds(
                #[trigger] info.peer_cert_names[i],
            ) == text_holds(v@, raw.regex, info.peer_cert_names[i]) by {
                a_matcher_means_what_is_written(p, v@, raw.regex, info.peer_cert_names[i]);
            }
            if some_name_holds(p, info.peer_cert_names) {
                let i = choose|i: int|
                    0 <= i < info.peer_cert_names.len() && p.holds(
                        #[trigger] info.peer_cert_names[i],
                    );
                assert(text_holds(v@, raw.regex, info.peer_cert_names[i]));
            }
        },
        _ => {},
    }
    assert forall|j: int| 0 <= j < raw.header@.len() implies header_holds(
        m.headers@[j],
        info.headers,
    ) == text_holds(
        (#[trigger] raw.header@[j]).1@,
        raw.regex,
        header_value(info.headers, lower(raw.header@[j].0@)),
    ) by {
        lower_is_idempotent(raw.header@[j].0@);
        assert(m.headers@[j].0@ == lower(raw.header@[j].0@));
    }
    if written_holds(raw, info) && !raw.any {
        assert forall|j: int| 0 <= j < m.headers@.len() implies header_holds(
            #[trigger] m.headers@[j],
            info.headers,
        ) by {
            assert(text_holds(
                raw.header@[j].1@,
                raw.regex,
                header_value(info.headers, lower(raw.header@[j].0@)),
            ));
        }
    }
    if m.holds(info) && !raw.any {
        assert forall|j: int| 0 <= j < raw.header@.len() implies text_holds(
            (#[trigger] raw.header@[j]).1@,
            raw.regex,
            header_value(info.headers, lower(raw.header@[j].0@)),
        ) by {
            assert(header_holds(m.headers@[j], info.headers));
        }
    }
}

/// A literal block does not see the case of what it is compared with.
pub proof fn literals_ignore_case(value: Seq<char>, a: Seq<char>, b: Seq<char>)
    requires
        lower(a) == lower(b),
    ensures
        text_holds(value, false, a) == text_holds(value, false, b),
{
}

/// No two routes of a file that compiles share a name.
pub proof fn names_are_unique(routes: Seq<RawRoute>, loads: Seq<TlsLoad>, i: int, j: int)
    requires
        file_fault(routes, loads) is None,
        0 <= i < j < routes.len(),
    ensures
        routes[i].name@ != routes[j].name@,
{
    let names = route_names(routes);
    name_fault_covers(names, 0, j);
    if names[i] == names[j] {
        first_use_is_first(names, names[j], 0, i);
    }
}

proof fn name_fault_covers(names: Seq<Seq<char>>, from: int, j: int)
    requires
        0 <= from <= j < names.len(),
        name_fault(names, from) is None,
    ensures
        first_use(names, names[j], 0) >= j,
    decreases j - from,
{
    if from < j {
        name_fault_covers(names, from + 1, j);
    }
}

proof fn first_use_is_first(names: Seq<Seq<char>>, x: Seq<char>, k: int, i: int)
    requires
        0 <= k <= i < names.len(),
        names[i] == x,
    ensures
        first_use(names, x, k) <= i,
    decreases i - k,
{
    if names[k] != x {
        first_use_is_first(names, x, k + 1, i);
    }
}

/// Every route of a file that compiles has a name and asks for something, and
/// one that matches every call asks for nothing else.
pub proof fn every_route_asks_for_something(routes: Seq<RawRoute>, loads: Seq<TlsLoad>, i: int)
    requires
        file_fault(routes, loads) is None,
        0 <= i < routes.len(),
    ensures
        trimmed(routes[i].name@).len() > 0,
        routes[i].match_.any != routes[i].match_.has_predicates(),
{
    routes_fault_covers(routes, loads, 0, i);
}

proof fn routes_fault_covers(routes: Seq<RawRoute>, loads: Seq<TlsLoad>, from: int, i: int)
    requires
        0 <= from <= i < routes.len(),
        routes_fault(routes, loads, from) is None,
    ensures
        route_fault(i as usize, routes[i], loads) is None,
    decreases i - from,
{
    if from < i {
        routes_fault_covers(routes, loads, from + 1, i);
    }
}

// ---- What is promised of every compilation ----

/// The predicate asks for the written value: for its text but for case or, in a `regex`
/// block, for a match of the expression; and there is one exactly where one is written.
pub open spec fn asks_for(
    m: Option<Matcher>,
    written: Option<String>,
    regex: bool,
    candidate: Seq<char>,
) -> bool {
    match (m, written) {
        (Some(p), Some(v)) => p.holds(candidate) == if regex {
            regex_new(v@) is Ok && regex_is_match(regex_new(v@)->Ok_0, candidate)
        } else {
            lower(v@) == lower(candidate)
        },
        (None, None) => true,
        _ => false,
    }
}

proof fn a_block_asks_for_what_is_written(
    m: CompiledMatch,
    raw: RawRouteMatch,
    candidate: Seq<char>,
    j: int,
)
    requires
        match_of(m, raw),
    ensures
        m.any == raw.any,
        asks_for(m.request_uri_user, raw.request_uri_user, raw.regex, candidate),
        asks_for(m.request_uri_host, raw.request_uri_host, raw.regex, candidate),
        asks_for(m.to_user, raw.to_user, raw.regex, candidate),
        asks_for(m.to_host, raw.to_host, raw.regex, candidate),
        asks_for(m.from_user, raw.from_user, raw.regex, candidate),
        asks_for(m.from_host, raw.from_host, raw.regex, candidate),
        asks_for(m.register_source, raw.register_source, raw.regex, candidate),
        asks_for(m.peer_cert_san, raw.peer_cert_san, raw.regex, candidate),
        m.headers@.len() == raw.header@.len(),
        0 <= j < raw.header@.len() ==> {
            &&& m.headers@[j].0@ == lower(raw.header@[j].0@)
            &&& asks_for(Some(m.headers@[j].1), Some(raw.header@[j].1), raw.regex, candidate)
        },
{
}

/// A compiled route set has the routes of the file in their order, under their names and
/// with their overrides; each key of a route, and each of its headers, asks for what is
/// written under that key, of whatever text it is held against.
pub proof fn routes_ask_for_what_is_written(
    file: RawRouteFile,
    loads: &Vec<TlsLoad>,
    r: Result<RouteSet, RouteError<String>>,
    i: int,
    j: int,
    candidate: Seq<char>,
)
    requires
        call_ensures(compile_with_tls, (file, loads), r),
        r is Ok,
    ensures
        r->Ok_0.routes@.len() == file.routes@.len(),
        0 <= i < file.routes@.len() ==> ({
            let raw = file.routes@[i];
            let c = r->Ok_0.routes@[i];
            &&& c.name == raw.name
            &&& c.bridge == raw.bridge
            &&& c.media == raw.media
            &&& c.security == raw.security
            &&& c.recording == raw.recording
            &&& c.bridge_tls is Some <==> raw.bridge.tls is Some
            &&& c.match_.any == raw.match_.any
            &&& asks_for(
                c.match_.request_uri_user,
                raw.match_.request_uri_user,
                raw.match_.regex,
                candidate,
            )
            &&& asks_for(
                c.match_.request_uri_host,
                raw.match_.request_uri_host,
                raw.match_.regex,
                candidate,
            )
            &&& asks_for(c.match_.to_user, raw.match_.to_user, raw.match_.regex, candidate)
            &&& asks_for(c.match_.to_host, raw.match_.to_host, raw.match_.regex, candidate)
            &&& asks_for(c.match_.from_user, raw.match_.from_user, raw.match_.regex, candidate)
            &&& asks_for(c.match_.from_host, raw.match_.from_host, raw.match_.regex, candidate)
            &&& asks_for(
                c.match_.register_source,
                raw.match_.register_source,
                raw.match_.regex,
                candidate,
            )
            &&& asks_for(
                c.match_.peer_cert_san,
                raw.match_.peer_cert_san,
                raw.match_.regex,
                candidate,
            )
            &&& c.match_.headers@.len() == raw.match_.header@.len()
            &&& 0 <= j < raw.match_.header@.len() ==> {
                &&& c.match_.headers@[j].0@ == lower(raw.match_.header@[j].0@)
                &&& asks_for(
                    Some(c.match_.headers@[j].1),
                    Some(raw.match_.header@[j].1),
                    raw.match_.regex,
                    candidate,
                )
            }
        }),
{
    if 0 <= i < file.routes@.len() {
        let c = r->Ok_0.routes@[i];
        assert(route_of(c, file.routes@[i], loads@));
        a_block_asks_for_what_is_written(c.match_, file.routes@[i].match_, candidate, j);
    }
}

/// A route with a TLS block carries the material that was read for the very files and the
/// very pin that the block names.
pub proof fn a_route_carries_the_material_of_its_files(
    file: RawRouteFile,
    loads: &Vec<TlsLoad>,
    r: Result<RouteSet, RouteError<String>>,
    i: int,
)
    requires
        call_ensures(compile_with_tls, (file, loads), r),
        r is Ok,
        0 <= i < file.routes@.len(),
        file.routes@[i].bridge.tls is Some,
    ensures
        ({
            let tls = file.routes@[i].bridge.tls->0;
            let c = r->Ok_0.routes@[i].bridge_tls;
            c is Some && exists|k: int|
                {
                    &&& 0 <= k < loads@.len()
                    &&& (#[trigger] loads@[k]).files.client_cert@ == tls.client_cert@
                    &&& loads@[k].files.client_key@ == tls.client_key@
                    &&& loads@[k].files.pinned_sha256 is Some <==> tls.pinned_sha256 is Some
                    &&& tls.pinned_sha256 is Some ==> loads@[k].files.pinned_sha256->0@
                        == tls.pinned_sha256->0@
                    &&& loads@[k].outcome is Ok
                    &&& loads@[k].outcome->Ok_0.client_cert@ == c->0.client_cert@
                    &&& loads@[k].outcome->Ok_0.client_key@ == c->0.client_key@
                    &&& loads@[k].outcome->Ok_0.pinned_sha256 == c->0.pinned_sha256
                }
        }),
{
    let tls = file.routes@[i].bridge.tls->0;
    assert(route_of(r->Ok_0.routes@[i], file.routes@[i], loads@));
    a_load_is_of_those_files(loads@, tls, 0);
    let k = load_of(loads@, tls, 0);
    assert(same_files(loads@[k].files, tls));
}

proof fn a_load_is_of_those_files(loads: Seq<TlsLoad>, tls: BridgeTlsOverride, from: int)
    requires
        0 <= from <= loads.len(),
    ensures
        from <= load_of(loads, tls, from) <= loads.len(),
        load_of(loads, tls, from) < loads.len() ==> same_files(
            loads[load_of(loads, tls, from)].files,
            tls,
        ),
    decreases loads.len() - from,
{
    if from < loads.len() && !same_files(loads[from].files, tls) {
        a_load_is_of_those_files(loads, tls, from + 1);
    }
}

/// What compiles is sound: no name is blank and none is used twice, a route either matches
/// every call or sets a key, no header is asked for twice, and in a `regex` block every
/// value is an expression that `regex` takes.
pub proof fn what_compiles_is_sound(
    file: RawRouteFile,
    loads: &Vec<TlsLoad>,
    r: Result<RouteSet, RouteError<String>>,
    i: int,
    other: int,
    j: int,
    k: int,
)
    requires
        call_ensures(compile_with_tls, (file, loads), r),
        r is Ok,
        0 <= i < file.routes@.len(),
    ensures
        trimmed(file.routes@[i].name@).len() > 0,
        0 <= other < file.routes@.len() && other != i ==> file.routes@[i].name@
            != file.routes@[other].name@,
        ({
            let m = file.routes@[i].match_;
            &&& !m.any <==> (m.request_uri_user is Some || m.request_uri_host is Some
                || m.to_user is Some || m.to_host is Some || m.from_user is Some
                || m.from_host is Some || m.register_source is Some || m.peer_cert_san is Some
                || m.header@.len() > 0)
            &&& 0 <= j < k < m.header@.len() ==> lower(m.header@[j].0@) != lower(m.header@[k].0@)
            &&& m.regex ==> {
                &&& m.request_uri_user is Some ==> regex_new(m.request_uri_user->0@) is Ok
                &&& m.request_uri_host is Some ==> regex_new(m.request_uri_host->0@) is Ok
                &&& m.to_user is Some ==> regex_new(m.to_user->0@) is Ok
                &&& m.to_host is Some ==> regex_new(m.to_host->0@) is Ok
                &&& m.from_user is Some ==> regex_new(m.from_user->0@) is Ok
                &&& m.from_host is Some ==> regex_new(m.from_host->0@) is Ok
                &&& m.register_source is Some ==> regex_new(m.register_source->0@) is Ok
                &&& m.peer_cert_san is Some ==> regex_new(m.peer_cert_san->0@) is Ok
                &&& 0 <= j < m.header@.len() ==> regex_new(m.header@[j].1@) is Ok
            }
        }),
{
    let routes = file.routes@;
    routes_fault_covers(routes, loads@, 0, i);
    if 0 <= other < i {
        names_are_unique(routes, loads@, other, i);
    }
    if i < other < routes.len() {
        names_are_unique(routes, loads@, i, other);
    }
    let m = routes[i].match_;
    let name = routes[i].name@;
    if 0 <= j < m.header@.len() {
        sound_headers(i as usize, name, m.header@, m.regex, 0, j);
        if 0 <= j < k < m.header@.len() {
            sound_headers(i as usize, name, m.header@, m.regex, 0, k);
            assert(lower(m.header@[j].0@) != lower(m.header@[k].0@));
        }
    }
}

proof fn sound_headers(
    index: usize,
    name: Seq<char>,
    header: Seq<(String, String)>,
    regex: bool,
    from: int,
    j: int,
)
    requires
        0 <= from <= j < header.len(),
        header_fault(index, name, header, regex, from) is None,
    ensures
        !header_repeats(header, j),
        regex ==> regex_new(header[j].1@) is Ok,
    decreases j - from,
{
    if from < j {
        sound_headers(index, name, header, regex, from + 1, j);
    }
}

/// What is refused is faulty, and as the error says: two routes that share the name, a
/// route whose name is blank, one that matches every call and sets a key, one that asks for
/// nothing, a header asked for twice, an expression that `regex` does not take, or a TLS
/// block. The route it names by number is the one that it names by name.
pub proof fn what_is_refused_is_faulty(
    file: RawRouteFile,
    loads: &Vec<TlsLoad>,
    r: Result<RouteSet, RouteError<String>>,
)
    requires
        call_ensures(compile_with_tls, (file, loads), r),
        r is Err,
    ensures
        match r->Err_0 {
            RouteError::DuplicateName { name, first, second } => {
                &&& first < second < file.routes@.len()
                &&& file.routes@[first as int].name@ == name@
                &&& file.routes@[second as int].name@ == name@
            },
            RouteError::EmptyName { index, name } => {
                &&& index < file.routes@.len()
                &&& file.routes@[index as int].name@ == name@
                &&& trimmed(name@).len() == 0
            },
            RouteError::AnyWithOtherKeys { index, name } => {
                let m = file.routes@[index as int].match_;
                &&& index < file.routes@.len()
                &&& file.routes@[index as int].name@ == name@
                &&& m.any
                &&& (m.request_uri_user is Some || m.request_uri_host is Some || m.to_user is Some
                    || m.to_host is Some || m.from_user is Some || m.from_host is Some
                    || m.register_source is Some || m.peer_cert_san is Some || m.header@.len() > 0)
            },
            RouteError::EmptyMatch { index, name } => {
                let m = file.routes@[index as int].match_;
                &&& index < file.routes@.len()
                &&& file.routes@[index as int].name@ == name@
                &&& !m.any && m.request_uri_user is None && m.request_uri_host is None
                &&& m.to_user is None && m.to_host is None && m.from_user is None
                &&& m.from_host is None && m.register_source is None && m.peer_cert_san is None
                &&& m.header@.len() == 0
            },
            RouteError::DuplicateHeader { index, name, header } => {
                let m = file.routes@[index as int].match_;
                &&& index < file.routes@.len()
                &&& file.routes@[index as int].name@ == name@
                &&& exists|j: int, k: int|
                    0 <= j < k < m.header@.len() && lower((#[trigger] m.header@[j]).0@) == lower(
                        header@,
                    ) && (#[trigger] m.header@[k]).0@ == header@
            },
            RouteError::BadRegex { index, name, key, err } => {
                let m = file.routes@[index as int].match_;
                let bad = |v: Option<String>| v is Some && regex_new(v->0@) == Err::<
                    regex::Regex,
                    Seq<char>,
                >(err@);
                &&& index < file.routes@.len()
                &&& file.routes@[index as int].name@ == name@
                &&& m.regex
                &&& {
                    ||| key@ == "request_uri_user"@ && bad(m.request_uri_user)
                    ||| key@ == "request_uri_host"@ && bad(m.request_uri_host)
                    ||| key@ == "to_user"@ && bad(m.to_user)
                    ||| key@ == "to_host"@ && bad(m.to_host)
                    ||| key@ == "from_user"@ && bad(m.from_user)
                    ||| key@ == "from_host"@ && bad(m.from_host)
                    ||| key@ == "register_source"@ && bad(m.register_source)
                    ||| key@ == "peer_cert_san"@ && bad(m.peer_cert_san)
                    ||| exists|j: int|
                        0 <= j < m.header@.len() && key@ == "header."@ + (
                        #[trigger] m.header@[j]).0@ && bad(Some(m.header@[j].1))
                }
            },
            RouteError::BadBridgeTls { index, name, source } => {
                &&& index < file.routes@.len()
                &&& file.routes@[index as int].name@ == name@
                &&& file.routes@[index as int].bridge.tls is Some
                &&& source@ == NOT_LOADED@ || exists|k: int|
                    0 <= k < loads@.len() && (#[trigger] loads@[k]).outcome is Err
                        && loads@[k].outcome->Err_0@ == source@ && loads@[k].files.client_cert@
                        == file.routes@[index as int].bridge.tls->0.client_cert@
            },
        },
{
    let routes = file.routes@;
    let e = r->Err_0.text();
    assert(file.routes.len() == routes.len());
    if name_fault(route_names(routes), 0) is Some {
        a_shared_name_is_shared(route_names(routes), 0);
    } else {
        let i = a_fault_is_of_some_route(routes, loads@, 0);
        let m = routes[i].match_;
        let name = routes[i].name@;
        assert(route_fault(i as usize, routes[i], loads@) == Some(e));
        if trimmed(name).len() > 0 && match_fault(i as usize, name, m) is Some && (m.any
            != m.has_predicates()) && header_fault(i as usize, name, m.header@, m.regex, 0)
            is Some {
            let j = a_header_fault_is_of_some_header(i as usize, name, m.header@, m.regex, 0);
            if header_repeats(m.header@, j) {
                let q = choose|q: int|
                    0 <= q < j && lower((#[trigger] m.header@[q]).0@) == lower(m.header@[j].0@);
                assert(m.header@[q] == m.header@[q] && m.header@[j] == m.header@[j]);
            } else {
                assert(Some(m.header@[j].1) is Some);
            }
        }
        if e is BadBridgeTls {
            a_load_is_of_those_files(loads@, routes[i].bridge.tls->0, 0);
        }
    }
}

proof fn a_shared_name_is_shared(names: Seq<Seq<char>>, from: int)
    requires
        0 <= from <= names.len() <= usize::MAX,
        name_fault(names, from) is Some,
    ensures
        name_fault(names, from) matches Some(RouteError::DuplicateName { name, first, second })
            && first < second < names.len() && names[first as int] == name
            && names[second as int] == name,
    decreases names.len() - from,
{
    let f = first_use(names, names[from], 0);
    if f < from {
        a_use_is_a_use(names, names[from], 0);
    } else {
        a_shared_name_is_shared(names, from + 1);
    }
}

proof fn a_use_is_a_use(names: Seq<Seq<char>>, x: Seq<char>, k: int)
    requires
        0 <= k <= names.len(),
    ensures
        k <= first_use(names, x, k) <= names.len(),
        first_use(names, x, k) < names.len() ==> names[first_use(names, x, k)] == x,
    decreases names.len() - k,
{
    if k < names.len() && names[k] != x {
        a_use_is_a_use(names, x, k + 1);
    }
}

proof fn a_fault_is_of_some_route(routes: Seq<RawRoute>, loads: Seq<TlsLoad>, from: int) -> (i: int)
    requires
        0 <= from <= routes.len(),
        routes_fault(routes, loads, from) is Some,
    ensures
        from <= i < routes.len(),
        route_fault(i as usize, routes[i], loads) == routes_fault(routes, loads, from),
    decreases routes.len() - from,
{
    if route_fault(from as usize, routes[from], loads) is Some {
        from
    } else {
        a_fault_is_of_some_route(routes, loads, from + 1)
    }
}

proof fn a_header_fault_is_of_some_header(
    index: usize,
    name: Seq<char>,
    header: Seq<(String, String)>,
    regex: bool,
    from: int,
) -> (j: int)
    requires
        0 <= from <= header.len(),
        header_fault(index, name, header, regex, from) is Some,
    ensures
        from <= j < header.len(),
        header_fault(index, name, header, regex, from) == (if header_repeats(header, j) {
            Some(RouteError::DuplicateHeader { index, name, header: header[j].0@ })
        } else {
            pattern_fault(index, name, "header."@ + header[j].0@, header[j].1@, regex)
        }),
    decreases header.len() - from,
{
    if header_repeats(header, from) || pattern_fault(
        index,
        name,
        "header."@ + header[from].0@,
        header[from].1@,
        regex,
    ) is Some {
        from
    } else {
        a_header_fault_is_of_some_header(index, name, header, regex, from + 1)
    }
}

/// A file is compiled without TLS material as with an empty list of it: the same routes
/// for every call, or the same error.
pub proof fn compiling_alone_is_compiling_without_material(
    file: RawRouteFile,
    none: &Vec<TlsLoad>,
    r: Result<RouteSet, RouteError<String>>,
    s: Result<RouteSet, RouteError<String>>,
    i: int,
    info: InfoView,
)
    requires
        none@.len() == 0,
        call_ensures(compile, (file,), r),
        call_ensures(compile_with_tls, (file, none), s),
    ensures
        r is Ok <==> s is Ok,
        r is Err ==> r->Err_0.text() == s->Err_0.text(),
        r is Ok ==> r->Ok_0.routes@.len() == s->Ok_0.routes@.len(),
        r is Ok && 0 <= i < file.routes@.len() ==> {
            let a = r->Ok_0.routes@[i];
            let b = s->Ok_0.routes@[i];
            &&& a.name == b.name
            &&& a.bridge == b.bridge
            &&& a.media == b.media
            &&& a.security == b.security
            &&& a.recording == b.recording
            &&& a.bridge_tls is None && b.bridge_tls is None
            &&& a.match_.holds(info) == b.match_.holds(info)
        },
{
    assert(none@ =~= seq![]);
    if r is Ok && 0 <= i < file.routes@.len() {
        let raw = file.routes@[i];
        assert(route_of(r->Ok_0.routes@[i], raw, none@));
        assert(route_of(s->Ok_0.routes@[i], raw, none@));
        compilation_keeps_the_meaning(r->Ok_0.routes@[i].match_, raw.match_, info);
        compilation_keeps_the_meaning(s->Ok_0.routes@[i].match_, raw.match_, info);
    }
}

/// The message of an error names the route at fault by its number and its name, two routes
/// in the order of the file, and what is wrong.
pub proof fn an_error_names_its_route(
    e: &RouteError<String>,
    r: String,
    number: String,
    first: String,
    second: String,
    name: &str,
)
    requires
        call_ensures(RouteError::<String>::message, (e,), r),
        match *e {
            RouteError::EmptyName { index, name: n } => name@ == n@ && call_ensures(
                decimal_string,
                (index as u64,),
                number,
            ),
            RouteError::EmptyMatch { index, name: n } => name@ == n@ && call_ensures(
                decimal_string,
                (index as u64,),
                number,
            ),
            RouteError::AnyWithOtherKeys { index, name: n } => name@ == n@ && call_ensures(
                decimal_string,
                (index as u64,),
                number,
            ),
            RouteError::DuplicateName { name: n, first: a, second: b } => name@ == n@
                && call_ensures(decimal_string, (a as u64,), first) && call_ensures(
                decimal_string,
                (b as u64,),
                second,
            ),
            _ => false,
        },
    ensures
        ({
            let label = "route #"@ + number@ + " ("@ + debug_form(name@) + ")"@;
            &&& *e is EmptyName ==> r@ == label + " has an empty name"@
            &&& *e is EmptyMatch ==> r@ == label
                + " has an empty match block — set `any = true` for an unconditional match"@
            &&& *e is AnyWithOtherKeys ==> r@ == label
                + " sets `any = true` together with other match keys; `any` must be exclusive"@
            &&& *e is DuplicateName ==> r@ == "two routes share name "@ + debug_form(name@) + " (#"@ + first@
                + " and #"@ + second@ + "); names must be unique"@
        }),
{
}

} // verus!
