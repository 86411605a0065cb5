//! From TOML text to a route set.
use vstd::prelude::*;

use crate::routes::compile::{
    compile_with_tls, file_fault, key_of, message_of, route_of, set_of, RouteError, TlsLoad,
};
use crate::routes::compiled::{regex_is_match, regex_new, Matcher, RouteSet};
use crate::routes::decode::{
    a_missing_entry_is_not_found, an_entry_fits, an_inner_table_is_sound, are_routes, decode_file,
    each_route_is_its_table, is_bridge, is_match, is_media, is_port, kind, kind_of, lacks, list_fault,
    lookup, missing_from, ports_at, required, seen, seen_list, stands, table_fault, text_at,
    texts_at, the_first_entry_is_found, value_fault, Block, Entries, Kind, TomlError,
};
use crate::routes::document::{read_document, toml_parsed, Doc, TomlValue};
use crate::routes::raw::{RawRoute, RawRouteFile};
use crate::text::{concat, lower};

verus! {

/// Why a text does not load.
#[derive(Debug, Clone)]
pub enum LoadError {
    /// The text is no TOML document, or not one that holds a dialplan.
    Toml(TomlError<String>),
    /// The dialplan does not compile.
    Compile(RouteError<String>),
}

impl LoadError {
    /// The error as text.
    pub open spec fn message(self) -> Seq<char> {
        match self {
            LoadError::Toml(e) => "invalid TOML: "@ + crate::routes::decode::message_of(e.text()),
            LoadError::Compile(e) => message_of(e.text()),
        }
    }

    /// The error as text.
    pub fn to_string(&self) -> (r: String)
        ensures
            r@ == self.message(),
    {
        match self {
            LoadError::Toml(e) => concat("invalid TOML: ", e.to_string().as_str()),
            LoadError::Compile(e) => e.message(),
        }
    }
}

/// What is wrong with a text before its routes are compiled.
pub open spec fn text_fault(parsed: Result<Entries, Seq<char>>) -> Option<TomlError<Seq<char>>> {
    match parsed {
        Err(m) => Some(TomlError::Syntax(m)),
        Ok(e) => table_fault(Block::File, e, 0),
    }
}

/// The dialplan in a TOML text. Tables other than `[[route]]` are not looked at.
pub fn parse_routes(input: &str) -> (r: Result<RawRouteFile, TomlError<String>>)
    ensures
        match r {
            Ok(f) => text_fault(toml_parsed(input@)) is None && are_routes(
                f.routes@,
                toml_parsed(input@)->Ok_0,
            ),
            Err(e) => text_fault(toml_parsed(input@)) == Some(e.text()),
        },
{
    match read_document(input) {
        Err(m) => Err(TomlError::Syntax(m)),
        Ok(e) => decode_file(&e),
    }
}

/// `set` is the route set of the document, given the TLS material.
pub open spec fn loads_to(set: RouteSet, e: Entries, loads: Seq<TlsLoad>) -> bool {
    exists|routes: Seq<RawRoute>|
        #![trigger are_routes(routes, e)]
        are_routes(routes, e) && file_fault(routes, loads) is None && set_of(
            set.routes@,
            routes,
            loads,
        )
}

/// The routes of the document do not compile, and this is why.
pub open spec fn fails_with(e: RouteError<Seq<char>>, d: Entries, loads: Seq<TlsLoad>) -> bool {
    exists|routes: Seq<RawRoute>|
        #![trigger are_routes(routes, d)]
        are_routes(routes, d) && file_fault(routes, loads) == Some(e)
}

/// Compiles the `[[route]]` tables of a TOML text whose routes set no TLS block.
/// A route that sets one is refused: nothing has been read for it.
pub fn load_from_toml(input: &str) -> (r: Result<RouteSet, LoadError>)
    ensures
        match r {
            Ok(set) => text_fault(toml_parsed(input@)) is None && loads_to(
                set,
                toml_parsed(input@)->Ok_0,
                seq![],
            ),
            Err(LoadError::Toml(e)) => text_fault(toml_parsed(input@)) == Some(e.text()),
            Err(LoadError::Compile(e)) => text_fault(toml_parsed(input@)) is None && fails_with(
                e.text(),
                toml_parsed(input@)->Ok_0,
                seq![],
            ),
        },
{
    let loads: Vec<TlsLoad> = Vec::new();
    assert(loads@ =~= seq![]);
    load_with_tls(input, &loads)
}

/// Compiles the `[[route]]` tables of a TOML text, given what reading the files
/// of its TLS blocks gave.
pub fn load_with_tls(input: &str, loads: &Vec<TlsLoad>) -> (r: Result<RouteSet, LoadError>)
    ensures
        match r {
            Ok(set) => text_fault(toml_parsed(input@)) is None && loads_to(
                set,
                toml_parsed(input@)->Ok_0,
                loads@,
            ),
            Err(LoadError::Toml(e)) => text_fault(toml_parsed(input@)) == Some(e.text()),
            Err(LoadError::Compile(e)) => text_fault(toml_parsed(input@)) is None && fails_with(
                e.text(),
                toml_parsed(input@)->Ok_0,
                loads@,
            ),
        },
{
    let file = match parse_routes(input) {
        Ok(f) => f,
        Err(e) => {
            return Err(LoadError::Toml(e));
        },
    };
    assert(are_routes(file.routes@, toml_parsed(input@)->Ok_0));
    match compile_with_tls(file, loads) {
        Ok(set) => Ok(set),
        Err(e) => Err(LoadError::Compile(e)),
    }
}

// ---- What is promised of every text ----

/// A text that `toml` does not take is refused with the words of `toml`; and one whose
/// document has no `[[route]]` gives a dialplan without routes.
pub proof fn a_text_without_routes_has_none(
    input: &str,
    r: Result<RawRouteFile, TomlError<String>>,
)
    requires
        call_ensures(parse_routes, (input,), r),
    ensures
        toml_parsed(input@) is Err ==> r is Err && r->Err_0 is Syntax && r->Err_0->Syntax_0@
            == toml_parsed(input@)->Err_0,
        toml_parsed(input@) is Ok && lacks(toml_parsed(input@)->Ok_0, "route"@) && r is Ok
            ==> r->Ok_0.routes@.len() == 0,
{
    if toml_parsed(input@) is Ok && lacks(toml_parsed(input@)->Ok_0, "route"@) {
        a_missing_entry_is_not_found(toml_parsed(input@)->Ok_0, "route"@);
    }
}

/// There is one route for each `[[route]]` table, in the order of the document, and it has
/// the name that its table gives.
pub proof fn routes_keep_their_order_and_names(
    input: &str,
    r: Result<RawRouteFile, TomlError<String>>,
    e: Entries,
    p: int,
    v: Seq<Doc>,
    i: int,
    t: Entries,
    q: int,
)
    requires
        call_ensures(parse_routes, (input,), r),
        r is Ok,
        toml_parsed(input@) == Ok::<Entries, Seq<char>>(e),
        stands(e, "route"@, p),
        e[p].1 == Doc::Items(v),
        0 <= i < v.len(),
        v[i] == Doc::Table(t),
    ensures
        r->Ok_0.routes@.len() == v.len(),
        stands(t, "name"@, q) ==> t[q].1 == Doc::Text(r->Ok_0.routes@[i].name@),
        !lacks(t, "name"@),
        !lacks(t, "match"@),
{
    each_route_is_its_table(r->Ok_0.routes@, e, p, v, i);
    if stands(t, "name"@, q) {
        the_first_entry_is_found(t, "name"@, q);
    }
    names_and_matches_are_needed(t);
}

proof fn names_and_matches_are_needed(t: Entries)
    requires
        table_fault(Block::Route, t, 0) is None,
    ensures
        !lacks(t, "name"@),
        !lacks(t, "match"@),
{
    reaches_the_end(Block::Route, t, 0);
    reveal_with_fuel(missing_from, 3);
    assert(required(Block::Route)[0] == "name"@);
    assert(required(Block::Route)[1] == "match"@);
    if lacks(t, "name"@) {
        a_missing_entry_is_not_found(t, "name"@);
    }
    if lacks(t, "match"@) {
        a_missing_entry_is_not_found(t, "match"@);
    }
}

proof fn reaches_the_end(block: Block, e: Entries, i: int)
    requires
        0 <= i <= e.len(),
        table_fault(block, e, i) is None,
    ensures
        missing_from(block, e, 0) is None,
    decreases e.len() - i,
{
    if i < e.len() {
        reaches_the_end(block, e, i + 1);
    }
}

/// The entry fills the field: a string with its text, and nothing else does.
pub open spec fn fills_text(d: Doc, field: Option<String>) -> bool {
    field is Some && d == Doc::Text(field->0@)
}

/// The entry fills the field: a number that is not negative with its value.
pub open spec fn fills_count(d: Doc, field: Option<u64>) -> bool {
    field is Some && d is Integer && d->Integer_0 >= 0 && d->Integer_0 == field->0
}

/// A key of `[route.match]` fills the field of its own name and no other: a string with
/// its text, a flag with its value, a header with its name and its text. Any other key,
/// and any other kind of value, is refused.
pub proof fn a_match_key_fills_its_own_field(
    input: &str,
    r: Result<RawRouteFile, TomlError<String>>,
    e: Entries,
    p: int,
    v: Seq<Doc>,
    i: int,
    t: Entries,
    b: int,
    m: Entries,
    q: int,
    h: int,
)
    requires
        call_ensures(parse_routes, (input,), r),
        r is Ok,
        toml_parsed(input@) == Ok::<Entries, Seq<char>>(e),
        stands(e, "route"@, p),
        e[p].1 == Doc::Items(v),
        0 <= i < v.len(),
        v[i] == Doc::Table(t),
        stands(t, "match"@, b),
        t[b].1 == Doc::Table(m),
    ensures
        ({
            let f = r->Ok_0.routes@[i].match_;
            let d = m[q].1;
            &&& stands(m, "any"@, q) ==> d == Doc::Flag(f.any)
            &&& stands(m, "regex"@, q) ==> d == Doc::Flag(f.regex)
            &&& stands(m, "request_uri_user"@, q) ==> fills_text(d, f.request_uri_user)
            &&& stands(m, "request_uri_host"@, q) ==> fills_text(d, f.request_uri_host)
            &&& stands(m, "to_user"@, q) ==> fills_text(d, f.to_user)
            &&& stands(m, "to_host"@, q) ==> fills_text(d, f.to_host)
            &&& stands(m, "from_user"@, q) ==> fills_text(d, f.from_user)
            &&& stands(m, "from_host"@, q) ==> fills_text(d, f.from_host)
            &&& stands(m, "register_source"@, q) ==> fills_text(d, f.register_source)
            &&& stands(m, "peer_cert_san"@, q) ==> fills_text(d, f.peer_cert_san)
            &&& stands(m, "header"@, q) ==> {
                &&& d is Table
                &&& f.header@.len() == d->Table_0.len()
                &&& 0 <= h < f.header@.len() ==> {
                    &&& f.header@[h].0@ == d->Table_0[h].0
                    &&& d->Table_0[h].1 == Doc::Text(f.header@[h].1@)
                }
            }
            &&& lacks(m, "any"@) ==> !f.any
            &&& lacks(m, "regex"@) ==> !f.regex
            &&& lacks(m, "request_uri_user"@) ==> f.request_uri_user is None
            &&& lacks(m, "request_uri_host"@) ==> f.request_uri_host is None
            &&& lacks(m, "to_user"@) ==> f.to_user is None
            &&& lacks(m, "to_host"@) ==> f.to_host is None
            &&& lacks(m, "from_user"@) ==> f.from_user is None
            &&& lacks(m, "from_host"@) ==> f.from_host is None
            &&& lacks(m, "register_source"@) ==> f.register_source is None
            &&& lacks(m, "peer_cert_san"@) ==> f.peer_cert_san is None
            &&& lacks(m, "header"@) ==> f.header@.len() == 0
            &&& 0 <= q < m.len() ==> {
                ||| m[q].0 == "any"@
                ||| m[q].0 == "regex"@
                ||| m[q].0 == "request_uri_user"@
                ||| m[q].0 == "request_uri_host"@
                ||| m[q].0 == "to_user"@
                ||| m[q].0 == "to_host"@
                ||| m[q].0 == "from_user"@
                ||| m[q].0 == "from_host"@
                ||| m[q].0 == "register_source"@
                ||| m[q].0 == "peer_cert_san"@
                ||| m[q].0 == "header"@
            }
        }),
{
    the_keys_of_match_differ();
    each_route_is_its_table(r->Ok_0.routes@, e, p, v, i);
    assert(kind_of(Block::Route, "match"@) == Some(Kind::Block(Block::Match))) by {
        reveal_strlit("name");
        reveal_strlit("match");
        assert("name"@.len() != "match"@.len());
    }
    an_inner_table_is_sound(Block::Route, t, "match"@, b, Block::Match);
    let f = r->Ok_0.routes@[i].match_;
    assert(is_match(f, m));
    if 0 <= q < m.len() {
        an_entry_fits(Block::Match, m, q);
        if stands(m, m[q].0, q) {
            the_first_entry_is_found(m, m[q].0, q);
            if m[q].0 == "header"@ {
                an_inner_table_is_sound(Block::Match, m, "header"@, q, Block::Header);
                if 0 <= h < f.header@.len() {
                    an_entry_fits(Block::Header, m[q].1->Table_0, h);
                    assert(f.header@[h].0@ == m[q].1->Table_0[h].0);
                }
            }
        }
    }
    absent_match_keys(m);
}

proof fn absent_match_keys(m: Entries)
    ensures
        lacks(m, "any"@) ==> lookup(m, "any"@) is None,
        lacks(m, "regex"@) ==> lookup(m, "regex"@) is None,
        lacks(m, "request_uri_user"@) ==> lookup(m, "request_uri_user"@) is None,
        lacks(m, "request_uri_host"@) ==> lookup(m, "request_uri_host"@) is None,
        lacks(m, "to_user"@) ==> lookup(m, "to_user"@) is None,
        lacks(m, "to_host"@) ==> lookup(m, "to_host"@) is None,
        lacks(m, "from_user"@) ==> lookup(m, "from_user"@) is None,
        lacks(m, "from_host"@) ==> lookup(m, "from_host"@) is None,
        lacks(m, "register_source"@) ==> lookup(m, "register_source"@) is None,
        lacks(m, "peer_cert_san"@) ==> lookup(m, "peer_cert_san"@) is None,
        lacks(m, "header"@) ==> lookup(m, "header"@) is None,
{
    absent(m, "any"@);
    absent(m, "regex"@);
    absent(m, "request_uri_user"@);
    absent(m, "request_uri_host"@);
    absent(m, "to_user"@);
    absent(m, "to_host"@);
    absent(m, "from_user"@);
    absent(m, "from_host"@);
    absent(m, "register_source"@);
    absent(m, "peer_cert_san"@);
    absent(m, "header"@);
}

proof fn absent(m: Entries, key: Seq<char>)
    ensures
        lacks(m, key) ==> lookup(m, key) is None,
{
    if lacks(m, key) {
        a_missing_entry_is_not_found(m, key);
    }
}

/// The keys of `[route.match]` are distinct texts.
proof fn the_keys_of_match_differ()
    ensures
        kind_of(Block::Match, "any"@) == Some(Kind::Flag),
        kind_of(Block::Match, "regex"@) == Some(Kind::Flag),
        kind_of(Block::Match, "header"@) == Some(Kind::Block(Block::Header)),
        kind_of(Block::Match, "request_uri_user"@) == Some(Kind::Text),
        kind_of(Block::Match, "request_uri_host"@) == Some(Kind::Text),
        kind_of(Block::Match, "to_user"@) == Some(Kind::Text),
        kind_of(Block::Match, "to_host"@) == Some(Kind::Text),
        kind_of(Block::Match, "from_user"@) == Some(Kind::Text),
        kind_of(Block::Match, "from_host"@) == Some(Kind::Text),
        kind_of(Block::Match, "register_source"@) == Some(Kind::Text),
        kind_of(Block::Match, "peer_cert_san"@) == Some(Kind::Text),
{
    reveal_strlit("any");
    reveal_strlit("regex");
    reveal_strlit("request_uri_user");
    reveal_strlit("request_uri_host");
    reveal_strlit("to_user");
    reveal_strlit("to_host");
    reveal_strlit("from_user");
    reveal_strlit("from_host");
    reveal_strlit("register_source");
    reveal_strlit("peer_cert_san");
    reveal_strlit("header");
    assert("to_user"@[0] == 't' && "to_host"@[0] == 't');
    assert("header"@[0] == 'h' && "header"@.len() == 6);
    assert("any"@.len() == 3 && "regex"@.len() == 5);
}

/// A key of `[route.bridge]` fills the field of its own name and no other; a missing key
/// leaves its field to be inherited, and any other key is refused.
pub proof fn a_bridge_key_fills_its_own_field(
    input: &str,
    r: Result<RawRouteFile, TomlError<String>>,
    e: Entries,
    p: int,
    v: Seq<Doc>,
    i: int,
    t: Entries,
    b: int,
    m: Entries,
    q: int,
)
    requires
        call_ensures(parse_routes, (input,), r),
        r is Ok,
        toml_parsed(input@) == Ok::<Entries, Seq<char>>(e),
        stands(e, "route"@, p),
        e[p].1 == Doc::Items(v),
        0 <= i < v.len(),
        v[i] == Doc::Table(t),
        stands(t, "bridge"@, b),
        t[b].1 == Doc::Table(m),
    ensures
        ({
            let f = r->Ok_0.routes@[i].bridge;
            let d = m[q].1;
            &&& stands(m, "ws_url"@, q) ==> fills_text(d, f.ws_url)
            &&& stands(m, "ws_auth_header"@, q) ==> fills_text(d, f.ws_auth_header)
            &&& stands(m, "audio_direction"@, q) ==> fills_text(d, f.audio_direction)
            &&& stands(m, "on_ws_failure"@, q) ==> fills_text(d, f.on_ws_failure)
            &&& stands(m, "ws_connect_timeout_ms"@, q) ==> fills_count(d, f.ws_connect_timeout_ms)
            &&& stands(m, "silence_threshold_ms"@, q) ==> fills_count(d, f.silence_threshold_ms)
            &&& stands(m, "dead_air_threshold_ms"@, q) ==> fills_count(d, f.dead_air_threshold_ms)
            &&& stands(m, "rtp_stats_interval_ms"@, q) ==> fills_count(d, f.rtp_stats_interval_ms)
            &&& lacks(m, "ws_url"@) ==> f.ws_url is None
            &&& lacks(m, "ws_auth_header"@) ==> f.ws_auth_header is None
            &&& lacks(m, "audio_direction"@) ==> f.audio_direction is None
            &&& lacks(m, "on_ws_failure"@) ==> f.on_ws_failure is None
            &&& lacks(m, "ws_connect_timeout_ms"@) ==> f.ws_connect_timeout_ms is None
            &&& lacks(m, "silence_threshold_ms"@) ==> f.silence_threshold_ms is None
            &&& lacks(m, "dead_air_threshold_ms"@) ==> f.dead_air_threshold_ms is None
            &&& lacks(m, "rtp_stats_interval_ms"@) ==> f.rtp_stats_interval_ms is None
            &&& stands(m, "tls"@, q) ==> d is Table && f.tls is Some
            &&& lacks(m, "tls"@) ==> f.tls is None
            &&& lacks(m, "barge_in"@) ==> f.barge_in.enabled is None && f.barge_in.mode is None
                && f.barge_in.debounce_ms is None
            &&& 0 <= q < m.len() ==> {
                ||| m[q].0 == "ws_url"@
                ||| m[q].0 == "ws_auth_header"@
                ||| m[q].0 == "audio_direction"@
                ||| m[q].0 == "on_ws_failure"@
                ||| m[q].0 == "ws_connect_timeout_ms"@
                ||| m[q].0 == "barge_in"@
                ||| m[q].0 == "silence_threshold_ms"@
                ||| m[q].0 == "dead_air_threshold_ms"@
                ||| m[q].0 == "rtp_stats_interval_ms"@
                ||| m[q].0 == "tls"@
            }
        }),
{
    the_keys_of_bridge_differ();
    the_blocks_of_a_route();
    each_route_is_its_table(r->Ok_0.routes@, e, p, v, i);
    an_inner_table_is_sound(Block::Route, t, "bridge"@, b, Block::Bridge);
    assert(is_bridge(r->Ok_0.routes@[i].bridge, m));
    if 0 <= q < m.len() {
        an_entry_fits(Block::Bridge, m, q);
        if stands(m, m[q].0, q) {
            the_first_entry_is_found(m, m[q].0, q);
        }
    }
    absent(m, "ws_url"@);
    absent(m, "ws_auth_header"@);
    absent(m, "audio_direction"@);
    absent(m, "on_ws_failure"@);
    absent(m, "ws_connect_timeout_ms"@);
    absent(m, "barge_in"@);
    absent(m, "silence_threshold_ms"@);
    absent(m, "dead_air_threshold_ms"@);
    absent(m, "rtp_stats_interval_ms"@);
    absent(m, "tls"@);
    a_missing_entry_is_not_found(seq![], "enabled"@);
    a_missing_entry_is_not_found(seq![], "mode"@);
    a_missing_entry_is_not_found(seq![], "debounce_ms"@);
}

/// The keys of the block are distinct texts.
proof fn the_keys_of_bridge_differ()
    ensures
        kind_of(Block::Bridge, "ws_url"@) == Some(Kind::Text),
        kind_of(Block::Bridge, "ws_auth_header"@) == Some(Kind::Text),
        kind_of(Block::Bridge, "audio_direction"@) == Some(Kind::Text),
        kind_of(Block::Bridge, "on_ws_failure"@) == Some(Kind::Text),
        kind_of(Block::Bridge, "ws_connect_timeout_ms"@) == Some(Kind::Count),
        kind_of(Block::Bridge, "barge_in"@) == Some(Kind::Block(Block::BargeIn)),
        kind_of(Block::Bridge, "silence_threshold_ms"@) == Some(Kind::Count),
        kind_of(Block::Bridge, "dead_air_threshold_ms"@) == Some(Kind::Count),
        kind_of(Block::Bridge, "rtp_stats_interval_ms"@) == Some(Kind::Count),
        kind_of(Block::Bridge, "tls"@) == Some(Kind::Block(Block::Tls)),
{
    reveal_strlit("ws_url");
    reveal_strlit("ws_auth_header");
    reveal_strlit("audio_direction");
    reveal_strlit("on_ws_failure");
    reveal_strlit("ws_connect_timeout_ms");
    reveal_strlit("barge_in");
    reveal_strlit("silence_threshold_ms");
    reveal_strlit("dead_air_threshold_ms");
    reveal_strlit("rtp_stats_interval_ms");
    reveal_strlit("tls");
    assert("ws_url"@.len() == 6);
    assert("ws_auth_header"@.len() == 14);
    assert("audio_direction"@.len() == 15);
    assert("on_ws_failure"@.len() == 13);
    assert("ws_connect_timeout_ms"@.len() == 21);
    assert("barge_in"@.len() == 8);
    assert("silence_threshold_ms"@.len() == 20);
    assert("dead_air_threshold_ms"@.len() == 21);
    assert("rtp_stats_interval_ms"@.len() == 21);
    assert("tls"@.len() == 3);
    assert("ws_connect_timeout_ms"@[0] != "dead_air_threshold_ms"@[0]);
    assert("ws_connect_timeout_ms"@[0] != "rtp_stats_interval_ms"@[0]);
    assert("dead_air_threshold_ms"@[0] != "rtp_stats_interval_ms"@[0]);
}

/// A key of `[route.media]` fills the field of its own name and no other: the codecs in
/// their order, the two ports of the range as they stand.
pub proof fn a_media_key_fills_its_own_field(
    input: &str,
    r: Result<RawRouteFile, TomlError<String>>,
    e: Entries,
    p: int,
    v: Seq<Doc>,
    i: int,
    t: Entries,
    b: int,
    m: Entries,
    q: int,
    n: int,
)
    requires
        call_ensures(parse_routes, (input,), r),
        r is Ok,
        toml_parsed(input@) == Ok::<Entries, Seq<char>>(e),
        stands(e, "route"@, p),
        e[p].1 == Doc::Items(v),
        0 <= i < v.len(),
        v[i] == Doc::Table(t),
        stands(t, "media"@, b),
        t[b].1 == Doc::Table(m),
    ensures
        ({
            let f = r->Ok_0.routes@[i].media;
            let d = m[q].1;
            &&& stands(m, "dtmf"@, q) ==> fills_text(d, f.dtmf)
            &&& stands(m, "inactivity_timeout_secs"@, q) ==> fills_count(d, f.inactivity_timeout_secs)
            &&& stands(m, "srtp"@, q) ==> fills_text(d, f.srtp)
            &&& lacks(m, "codecs"@) ==> f.codecs is None
            &&& lacks(m, "dtmf"@) ==> f.dtmf is None
            &&& lacks(m, "inactivity_timeout_secs"@) ==> f.inactivity_timeout_secs is None
            &&& lacks(m, "rtp_port_range"@) ==> f.rtp_port_range is None
            &&& lacks(m, "srtp"@) ==> f.srtp is None
            &&& stands(m, "codecs"@, q) ==> {
                &&& f.codecs is Some
                &&& d is Items && d->Items_0.len() == f.codecs->0@.len()
                &&& 0 <= n < d->Items_0.len() ==> d->Items_0[n] == Doc::Text(f.codecs->0@[n]@)
            }
            &&& stands(m, "rtp_port_range"@, q) ==> {
                &&& f.rtp_port_range is Some
                &&& d is Items && d->Items_0.len() >= 2
                &&& d->Items_0[0] is Integer && d->Items_0[1] is Integer
                &&& d->Items_0[0]->Integer_0 == (f.rtp_port_range->0).0
                &&& d->Items_0[1]->Integer_0 == (f.rtp_port_range->0).1
            }
            &&& 0 <= q < m.len() ==> {
                ||| m[q].0 == "codecs"@
                ||| m[q].0 == "dtmf"@
                ||| m[q].0 == "inactivity_timeout_secs"@
                ||| m[q].0 == "rtp_port_range"@
                ||| m[q].0 == "srtp"@
            }
        }),
{
    the_keys_of_media_differ();
    the_blocks_of_a_route();
    each_route_is_its_table(r->Ok_0.routes@, e, p, v, i);
    an_inner_table_is_sound(Block::Route, t, "media"@, b, Block::Media);
    let f = r->Ok_0.routes@[i].media;
    assert(is_media(f, m));
    if 0 <= q < m.len() {
        an_entry_fits(Block::Media, m, q);
        if stands(m, m[q].0, q) {
            the_first_entry_is_found(m, m[q].0, q);
            if m[q].0 == "codecs"@ {
                let texts = texts_at(m, "codecs"@)->0;
                assert(m[q].1 is Items);
                assert(seen_list(f.codecs) == Some(texts));
                assert(crate::text::views(f.codecs->0@).len() == texts.len());
                if 0 <= n < m[q].1->Items_0.len() {
                    assert(m[q].1->Items_0[n] is Text);
                    assert(crate::text::views(f.codecs->0@)[n] == texts[n]);
                }
            }
            if m[q].0 == "rtp_port_range"@ {
                assert(m[q].1 is Items);
                assert(is_port(m[q].1->Items_0[0]) && is_port(m[q].1->Items_0[1]));
                assert(f.rtp_port_range == ports_at(m, "rtp_port_range"@));
            }
        }
    }
    absent(m, "codecs"@);
    absent(m, "dtmf"@);
    absent(m, "inactivity_timeout_secs"@);
    absent(m, "rtp_port_range"@);
    absent(m, "srtp"@);
}

/// The keys of the block are distinct texts.
proof fn the_keys_of_media_differ()
    ensures
        kind_of(Block::Media, "codecs"@) == Some(Kind::Texts),
        kind_of(Block::Media, "dtmf"@) == Some(Kind::Text),
        kind_of(Block::Media, "inactivity_timeout_secs"@) == Some(Kind::Count),
        kind_of(Block::Media, "rtp_port_range"@) == Some(Kind::Ports),
        kind_of(Block::Media, "srtp"@) == Some(Kind::Text),
{
    reveal_strlit("codecs");
    reveal_strlit("dtmf");
    reveal_strlit("inactivity_timeout_secs");
    reveal_strlit("rtp_port_range");
    reveal_strlit("srtp");
    assert("codecs"@.len() == 6);
    assert("dtmf"@.len() == 4);
    assert("inactivity_timeout_secs"@.len() == 23);
    assert("rtp_port_range"@.len() == 14);
    assert("srtp"@.len() == 4);
    assert("dtmf"@[0] != "srtp"@[0]);
}

/// A key of `[route.bridge.barge_in]` fills the field of its own name and no other.
pub proof fn a_barge_in_key_fills_its_own_field(
    input: &str,
    r: Result<RawRouteFile, TomlError<String>>,
    e: Entries,
    p: int,
    v: Seq<Doc>,
    i: int,
    t: Entries,
    b: int,
    m: Entries,
    q: int,
    w: int,
    x: Entries,
    y: int,
)
    requires
        call_ensures(parse_routes, (input,), r),
        r is Ok,
        toml_parsed(input@) == Ok::<Entries, Seq<char>>(e),
        stands(e, "route"@, p),
        e[p].1 == Doc::Items(v),
        0 <= i < v.len(),
        v[i] == Doc::Table(t),
        stands(t, "bridge"@, b),
        t[b].1 == Doc::Table(m),
        stands(m, "barge_in"@, w),
        m[w].1 == Doc::Table(x),
    ensures
        ({
            let f = r->Ok_0.routes@[i].bridge.barge_in;
            let d = x[y].1;
            &&& stands(x, "enabled"@, y) ==> f.enabled is Some && d == Doc::Flag(f.enabled->0)
            &&& lacks(x, "enabled"@) ==> f.enabled is None
            &&& stands(x, "mode"@, y) ==> fills_text(d, f.mode)
            &&& lacks(x, "mode"@) ==> f.mode is None
            &&& stands(x, "debounce_ms"@, y) ==> fills_count(d, f.debounce_ms)
            &&& lacks(x, "debounce_ms"@) ==> f.debounce_ms is None
            &&& 0 <= y < x.len() ==> {
                ||| x[y].0 == "enabled"@
                ||| x[y].0 == "mode"@
                ||| x[y].0 == "debounce_ms"@
            }
        }),
{
    the_keys_of_bridge_differ();
    the_keys_of_barge_in_differ();
    the_blocks_of_a_route();
    each_route_is_its_table(r->Ok_0.routes@, e, p, v, i);
    an_inner_table_is_sound(Block::Route, t, "bridge"@, b, Block::Bridge);
    assert(is_bridge(r->Ok_0.routes@[i].bridge, m));
    an_inner_table_is_sound(Block::Bridge, m, "barge_in"@, w, Block::BargeIn);
    the_first_entry_is_found(m, "barge_in"@, w);
    if 0 <= y < x.len() {
        an_entry_fits(Block::BargeIn, x, y);
        if stands(x, x[y].0, y) {
            the_first_entry_is_found(x, x[y].0, y);
        }
    }
    absent(x, "enabled"@);
    absent(x, "mode"@);
    absent(x, "debounce_ms"@);
}

/// The keys of the block are distinct texts.
proof fn the_keys_of_barge_in_differ()
    ensures
        kind_of(Block::BargeIn, "enabled"@) == Some(Kind::Flag),
        kind_of(Block::BargeIn, "mode"@) == Some(Kind::Text),
        kind_of(Block::BargeIn, "debounce_ms"@) == Some(Kind::Count),
{
    reveal_strlit("enabled");
    reveal_strlit("mode");
    reveal_strlit("debounce_ms");
    assert("enabled"@.len() == 7);
    assert("mode"@.len() == 4);
    assert("debounce_ms"@.len() == 11);
}

/// A key of `[route.bridge.tls]` fills the field of its own name and no other.
pub proof fn a_tls_key_fills_its_own_field(
    input: &str,
    r: Result<RawRouteFile, TomlError<String>>,
    e: Entries,
    p: int,
    v: Seq<Doc>,
    i: int,
    t: Entries,
    b: int,
    m: Entries,
    q: int,
    w: int,
    x: Entries,
    y: int,
)
    requires
        call_ensures(parse_routes, (input,), r),
        r is Ok,
        toml_parsed(input@) == Ok::<Entries, Seq<char>>(e),
        stands(e, "route"@, p),
        e[p].1 == Doc::Items(v),
        0 <= i < v.len(),
        v[i] == Doc::Table(t),
        stands(t, "bridge"@, b),
        t[b].1 == Doc::Table(m),
        stands(m, "tls"@, w),
        m[w].1 == Doc::Table(x),
    ensures
        ({
            let f = r->Ok_0.routes@[i].bridge.tls->0;
            let d = x[y].1;
            &&& stands(x, "client_cert"@, y) ==> d == Doc::Text(f.client_cert@)
            &&& !lacks(x, "client_cert"@)
            &&& stands(x, "client_key"@, y) ==> d == Doc::Text(f.client_key@)
            &&& !lacks(x, "client_key"@)
            &&& stands(x, "pinned_sha256"@, y) ==> fills_text(d, f.pinned_sha256)
            &&& lacks(x, "pinned_sha256"@) ==> f.pinned_sha256 is None
            &&& 0 <= y < x.len() ==> {
                ||| x[y].0 == "client_cert"@
                ||| x[y].0 == "client_key"@
                ||| x[y].0 == "pinned_sha256"@
            }
        }),
{
    the_keys_of_bridge_differ();
    the_keys_of_tls_differ();
    the_blocks_of_a_route();
    each_route_is_its_table(r->Ok_0.routes@, e, p, v, i);
    an_inner_table_is_sound(Block::Route, t, "bridge"@, b, Block::Bridge);
    assert(is_bridge(r->Ok_0.routes@[i].bridge, m));
    an_inner_table_is_sound(Block::Bridge, m, "tls"@, w, Block::Tls);
    the_first_entry_is_found(m, "tls"@, w);
    if 0 <= y < x.len() {
        an_entry_fits(Block::Tls, x, y);
        if stands(x, x[y].0, y) {
            the_first_entry_is_found(x, x[y].0, y);
        }
    }
    reaches_the_end(Block::Tls, x, 0);
    reveal_with_fuel(missing_from, 3);
    assert(required(Block::Tls)[0] == "client_cert"@);
    assert(required(Block::Tls)[1] == "client_key"@);
    absent(x, "client_cert"@);
    absent(x, "client_key"@);
    absent(x, "pinned_sha256"@);
}

/// The keys of the block are distinct texts.
proof fn the_keys_of_tls_differ()
    ensures
        kind_of(Block::Tls, "client_cert"@) == Some(Kind::Text),
        kind_of(Block::Tls, "client_key"@) == Some(Kind::Text),
        kind_of(Block::Tls, "pinned_sha256"@) == Some(Kind::Text),
{
    reveal_strlit("client_cert");
    reveal_strlit("client_key");
    reveal_strlit("pinned_sha256");
    assert("client_cert"@.len() == 11);
    assert("client_key"@.len() == 10);
    assert("pinned_sha256"@.len() == 13);
}

/// `[route.security]` and `[route.recording]` fill their one field each.
pub proof fn the_short_blocks_fill_their_field(
    input: &str,
    r: Result<RawRouteFile, TomlError<String>>,
    e: Entries,
    p: int,
    v: Seq<Doc>,
    i: int,
    t: Entries,
    b: int,
    block: Seq<char>,
    m: Entries,
    q: int,
)
    requires
        call_ensures(parse_routes, (input,), r),
        r is Ok,
        toml_parsed(input@) == Ok::<Entries, Seq<char>>(e),
        stands(e, "route"@, p),
        e[p].1 == Doc::Items(v),
        0 <= i < v.len(),
        v[i] == Doc::Table(t),
        stands(t, block, b),
        t[b].1 == Doc::Table(m),
    ensures
        ({
            let f = r->Ok_0.routes@[i];
            &&& block == "security"@ ==> {
                &&& stands(m, "min_attestation"@, q) ==> fills_text(
                    m[q].1,
                    f.security.min_attestation,
                )
                &&& lacks(m, "min_attestation"@) ==> f.security.min_attestation is None
                &&& 0 <= q < m.len() ==> m[q].0 == "min_attestation"@
            }
            &&& block == "recording"@ ==> {
                &&& stands(m, "mode"@, q) ==> fills_text(m[q].1, f.recording.mode)
                &&& lacks(m, "mode"@) ==> f.recording.mode is None
                &&& 0 <= q < m.len() ==> m[q].0 == "mode"@
            }
        }),
{
    the_blocks_of_a_route();
    each_route_is_its_table(r->Ok_0.routes@, e, p, v, i);
    if block == "security"@ {
        an_inner_table_is_sound(Block::Route, t, block, b, Block::Security);
        if 0 <= q < m.len() {
            an_entry_fits(Block::Security, m, q);
            if stands(m, m[q].0, q) {
                the_first_entry_is_found(m, m[q].0, q);
            }
        }
        absent(m, "min_attestation"@);
    }
    if block == "recording"@ {
        an_inner_table_is_sound(Block::Route, t, block, b, Block::Recording);
        if 0 <= q < m.len() {
            an_entry_fits(Block::Recording, m, q);
            if stands(m, m[q].0, q) {
                the_first_entry_is_found(m, m[q].0, q);
            }
        }
        absent(m, "mode"@);
    }
}

/// The blocks of a route are known by their names.
proof fn the_blocks_of_a_route()
    ensures
        kind_of(Block::Route, "name"@) == Some(Kind::Text),
        kind_of(Block::Route, "match"@) == Some(Kind::Block(Block::Match)),
        kind_of(Block::Route, "bridge"@) == Some(Kind::Block(Block::Bridge)),
        kind_of(Block::Route, "media"@) == Some(Kind::Block(Block::Media)),
        kind_of(Block::Route, "security"@) == Some(Kind::Block(Block::Security)),
        kind_of(Block::Route, "recording"@) == Some(Kind::Block(Block::Recording)),
{
    reveal_strlit("name");
    reveal_strlit("match");
    reveal_strlit("bridge");
    reveal_strlit("media");
    reveal_strlit("security");
    reveal_strlit("recording");
    assert("name"@.len() == 4);
    assert("match"@.len() == 5);
    assert("bridge"@.len() == 6);
    assert("media"@.len() == 5);
    assert("security"@.len() == 8);
    assert("recording"@.len() == 9);
    assert("match"@[1] == 'a' && "media"@[1] == 'e');
}

/// The predicate asks for what stands under `key`: for its text but for case or, in a
/// `regex` block, for a match of the expression; and there is none without the key.
pub open spec fn asks_for_entry(
    p: Option<Matcher>,
    m: Entries,
    key: Seq<char>,
    regex: bool,
    candidate: Seq<char>,
) -> bool {
    &&& lacks(m, key) ==> p is None
    &&& forall|q: int| #[trigger]
        stands(m, key, q) ==> p is Some && m[q].1 is Text && p->0.holds(candidate) == if regex {
            regex_new(m[q].1->Text_0) is Ok && regex_is_match(
                regex_new(m[q].1->Text_0)->Ok_0,
                candidate,
            )
        } else {
            lower(m[q].1->Text_0) == lower(candidate)
        }
}

/// A text that loads gives one route for each `[[route]]` table, in their order, each under
/// the name of its table; and each key of its `[route.match]` asks for what is written
/// under that key, of whatever text it is held against.
pub proof fn a_loaded_route_asks_for_what_the_text_says(
    input: &str,
    loads: &Vec<TlsLoad>,
    r: Result<RouteSet, LoadError>,
    e: Entries,
    p: int,
    v: Seq<Doc>,
    i: int,
    t: Entries,
    n: int,
    b: int,
    m: Entries,
    x: int,
    regex: bool,
    candidate: Seq<char>,
)
    requires
        call_ensures(load_with_tls, (input, loads), r) || (loads@.len() == 0 && call_ensures(
            load_from_toml,
            (input,),
            r,
        )),
        r is Ok,
        toml_parsed(input@) == Ok::<Entries, Seq<char>>(e),
        stands(e, "route"@, p),
        e[p].1 == Doc::Items(v),
        0 <= i < v.len(),
        v[i] == Doc::Table(t),
        stands(t, "name"@, n),
        stands(t, "match"@, b),
        t[b].1 == Doc::Table(m),
        stands(m, "regex"@, x) && m[x].1 == Doc::Flag(regex) || lacks(m, "regex"@) && !regex,
    ensures
        ({
            let set = r->Ok_0.routes@;
            let c = set[i].match_;
            &&& set.len() == v.len()
            &&& t[n].1 == Doc::Text(set[i].name@)
            &&& asks_for_entry(c.request_uri_user, m, "request_uri_user"@, regex, candidate)
            &&& asks_for_entry(c.request_uri_host, m, "request_uri_host"@, regex, candidate)
            &&& asks_for_entry(c.to_user, m, "to_user"@, regex, candidate)
            &&& asks_for_entry(c.to_host, m, "to_host"@, regex, candidate)
            &&& asks_for_entry(c.from_user, m, "from_user"@, regex, candidate)
            &&& asks_for_entry(c.from_host, m, "from_host"@, regex, candidate)
            &&& asks_for_entry(c.register_source, m, "register_source"@, regex, candidate)
            &&& asks_for_entry(c.peer_cert_san, m, "peer_cert_san"@, regex, candidate)
        }),
{
    if loads@.len() == 0 {
        assert(loads@ =~= seq![]);
    }
    let set = r->Ok_0;
    let routes = choose|routes: Seq<RawRoute>|
        #![trigger are_routes(routes, e)]
        are_routes(routes, e) && file_fault(routes, loads@) is None && set_of(
            set.routes@,
            routes,
            loads@,
        );
    the_blocks_of_a_route();
    the_keys_of_match_differ();
    each_route_is_its_table(routes, e, p, v, i);
    assert(route_of(set.routes@[i], routes[i], loads@));
    the_first_entry_is_found(t, "name"@, n);
    an_inner_table_is_sound(Block::Route, t, "match"@, b, Block::Match);
    let raw = routes[i].match_;
    let c = set.routes@[i].match_;
    assert(is_match(raw, m));
    if lacks(m, "regex"@) {
        a_missing_entry_is_not_found(m, "regex"@);
    } else {
        the_first_entry_is_found(m, "regex"@, x);
    }
    assert(raw.regex == regex);
    a_key_asks_for_its_entry(
        c.request_uri_user,
        raw.request_uri_user,
        m,
        "request_uri_user"@,
        regex,
        candidate,
    );
    a_key_asks_for_its_entry(
        c.request_uri_host,
        raw.request_uri_host,
        m,
        "request_uri_host"@,
        regex,
        candidate,
    );
    a_key_asks_for_its_entry(
        c.to_user,
        raw.to_user,
        m,
        "to_user"@,
        regex,
        candidate,
    );
    a_key_asks_for_its_entry(
        c.to_host,
        raw.to_host,
        m,
        "to_host"@,
        regex,
        candidate,
    );
    a_key_asks_for_its_entry(
        c.from_user,
        raw.from_user,
        m,
        "from_user"@,
        regex,
        candidate,
    );
    a_key_asks_for_its_entry(
        c.from_host,
        raw.from_host,
        m,
        "from_host"@,
        regex,
        candidate,
    );
    a_key_asks_for_its_entry(
        c.register_source,
        raw.register_source,
        m,
        "register_source"@,
        regex,
        candidate,
    );
    a_key_asks_for_its_entry(
        c.peer_cert_san,
        raw.peer_cert_san,
        m,
        "peer_cert_san"@,
        regex,
        candidate,
    );
}

proof fn a_key_asks_for_its_entry(
    p: Option<Matcher>,
    raw: Option<String>,
    m: Entries,
    key: Seq<char>,
    regex: bool,
    candidate: Seq<char>,
)
    requires
        table_fault(Block::Match, m, 0) is None,
        kind_of(Block::Match, key) == Some(Kind::Text),
        seen(raw) == text_at(m, key),
        key_of(p, raw, regex),
    ensures
        asks_for_entry(p, m, key, regex, candidate),
{
    absent(m, key);
    assert forall|q: int| #[trigger] stands(m, key, q) implies p is Some && m[q].1 is Text
        && p->0.holds(candidate) == if regex {
        regex_new(m[q].1->Text_0) is Ok && regex_is_match(
            regex_new(m[q].1->Text_0)->Ok_0,
            candidate,
        )
    } else {
        lower(m[q].1->Text_0) == lower(candidate)
    } by {
        the_first_entry_is_found(m, key, q);
        an_entry_fits(Block::Match, m, q);
    }
}

/// A text whose routes have a name and a match block, with a string under each key that
/// takes one and a flag under `any` and `regex`, is a dialplan, whatever other tables
/// stand beside them.
pub proof fn a_plain_dialplan_is_taken(
    input: &str,
    r: Result<RawRouteFile, TomlError<String>>,
    e: Entries,
)
    requires
        call_ensures(parse_routes, (input,), r),
        toml_parsed(input@) == Ok::<Entries, Seq<char>>(e),
        forall|p: int|
            0 <= p < e.len() && (#[trigger] e[p]).0 == "route"@ ==> e[p].1 is Items && forall|
                i: int,
            |
                0 <= i < e[p].1->Items_0.len() ==> is_plain_route(#[trigger] e[p].1->Items_0[i]),
    ensures
        r is Ok,
{
    assert forall|p: int| 0 <= p < e.len() implies kind_of(Block::File, (#[trigger] e[p]).0)
        is Some && value_fault(Block::File, e[p].0, kind_of(Block::File, e[p].0)->0, e[p].1)
        is None by {
        if e[p].0 == "route"@ {
            let v = e[p].1->Items_0;
            assert forall|i: int| 0 <= i < v.len() implies (#[trigger] v[i]) is Table
                && table_fault(Block::Route, v[i]->Table_0, 0) is None by {
                assert(is_plain_route(e[p].1->Items_0[i]));
                a_plain_route_is_sound(v[i]->Table_0);
            }
            sound_routes_are_sound(v, 0);
        }
    }
    what_fits_is_sound(Block::File, e, 0);
}

/// A table with a name and a match block, and nothing else.
pub open spec fn is_plain_route(d: Doc) -> bool {
    &&& d is Table
    &&& !lacks(d->Table_0, "name"@)
    &&& !lacks(d->Table_0, "match"@)
    &&& forall|k: int|
        0 <= k < d->Table_0.len() ==> {
            let (key, x) = #[trigger] d->Table_0[k];
            ||| key == "name"@ && x is Text
            ||| key == "match"@ && is_plain_match(x)
        }
}

/// A table of strings under the keys that take one, and of flags.
pub open spec fn is_plain_match(d: Doc) -> bool {
    &&& d is Table
    &&& forall|k: int|
        0 <= k < d->Table_0.len() ==> {
            let (key, x) = #[trigger] d->Table_0[k];
            ||| x is Flag && (key == "any"@ || key == "regex"@)
            ||| x is Text && (key == "request_uri_user"@ || key == "request_uri_host"@ || key
                == "to_user"@ || key == "to_host"@ || key == "from_user"@ || key == "from_host"@
                || key == "register_source"@ || key == "peer_cert_san"@)
            ||| key == "header"@ && x is Table && forall|j: int|
                0 <= j < x->Table_0.len() ==> (#[trigger] x->Table_0[j]).1 is Text
        }
}

proof fn a_plain_route_is_sound(t: Entries)
    requires
        is_plain_route(Doc::Table(t)),
    ensures
        table_fault(Block::Route, t, 0) is None,
{
    the_blocks_of_a_route();
    assert forall|k: int| 0 <= k < t.len() implies kind_of(Block::Route, (#[trigger] t[k]).0)
        is Some && value_fault(Block::Route, t[k].0, kind_of(Block::Route, t[k].0)->0, t[k].1)
        is None by {
        assert(Doc::Table(t)->Table_0[k] == t[k]);
        if t[k].0 == "match"@ {
            assert(is_plain_match(t[k].1));
            a_plain_match_is_sound(t[k].1->Table_0);
        }
    }
    found_where_it_is(t, "name"@);
    found_where_it_is(t, "match"@);
    reveal_with_fuel(missing_from, 3);
    assert(required(Block::Route)[0] == "name"@);
    assert(required(Block::Route)[1] == "match"@);
    assert(required(Block::Route).len() == 2);
    what_fits_is_sound(Block::Route, t, 0);
}

proof fn a_plain_match_is_sound(m: Entries)
    requires
        is_plain_match(Doc::Table(m)),
    ensures
        table_fault(Block::Match, m, 0) is None,
{
    the_keys_of_match_differ();
    assert forall|k: int| 0 <= k < m.len() implies kind_of(Block::Match, (#[trigger] m[k]).0)
        is Some && value_fault(Block::Match, m[k].0, kind_of(Block::Match, m[k].0)->0, m[k].1)
        is None by {
        assert(Doc::Table(m)->Table_0[k] == m[k]);
        if m[k].0 == "header"@ && m[k].1 is Table {
            let h = m[k].1->Table_0;
            assert forall|j: int| 0 <= j < h.len() implies kind_of(
                Block::Header,
                (#[trigger] h[j]).0,
            ) is Some && value_fault(
                Block::Header,
                h[j].0,
                kind_of(Block::Header, h[j].0)->0,
                h[j].1,
            ) is None by {}
            what_fits_is_sound(Block::Header, h, 0);
        }
    }
    what_fits_is_sound(Block::Match, m, 0);
}

proof fn found_where_it_is(e: Entries, key: Seq<char>)
    requires
        !lacks(e, key),
    ensures
        lookup(e, key) is Some,
    decreases e.len(),
{
    let k = choose|k: int| 0 <= k < e.len() && (#[trigger] e[k]).0 == key;
    if e[0].0 != key {
        assert(e.drop_first()[k - 1] == e[k]);
        found_where_it_is(e.drop_first(), key);
    }
}

proof fn what_fits_is_sound(block: Block, e: Entries, from: int)
    requires
        0 <= from <= e.len(),
        missing_from(block, e, 0) is None,
        forall|i: int|
            from <= i < e.len() ==> kind_of(block, (#[trigger] e[i]).0) is Some && value_fault(
                block,
                e[i].0,
                kind_of(block, e[i].0)->0,
                e[i].1,
            ) is None,
    ensures
        table_fault(block, e, from) is None,
    decreases e.len() - from,
{
    if from < e.len() {
        what_fits_is_sound(block, e, from + 1);
    }
}

proof fn sound_routes_are_sound(v: Seq<Doc>, from: int)
    requires
        0 <= from <= v.len(),
        forall|i: int|
            from <= i < v.len() ==> (#[trigger] v[i]) is Table && table_fault(
                Block::Route,
                v[i]->Table_0,
                0,
            ) is None,
    ensures
        list_fault(v, from) is None,
    decreases v.len() - from,
{
    if from < v.len() {
        sound_routes_are_sound(v, from + 1);
    }
}

/// Each key of a block takes the kind of value that it is for, and no block takes a key of
/// another name.
pub proof fn each_key_takes_its_kind(block: Block, key: &str, r: Option<Kind>)
    requires
        call_ensures(kind, (block, key), r),
    ensures
        block is Route ==> {
            &&& r == Some(Kind::Text) <==> key@ == "name"@
            &&& r == Some(Kind::Block(Block::Match)) <==> key@ == "match"@
            &&& r == Some(Kind::Block(Block::Bridge)) <==> key@ == "bridge"@
            &&& r == Some(Kind::Block(Block::Media)) <==> key@ == "media"@
            &&& r == Some(Kind::Block(Block::Security)) <==> key@ == "security"@
            &&& r == Some(Kind::Block(Block::Recording)) <==> key@ == "recording"@
        },
        block is Match ==> {
            &&& r == Some(Kind::Flag) <==> key@ == "any"@ || key@ == "regex"@
            &&& r == Some(Kind::Block(Block::Header)) <==> key@ == "header"@
            &&& r == Some(Kind::Text) <==> key@ == "request_uri_user"@ || key@
                == "request_uri_host"@ || key@ == "to_user"@ || key@ == "to_host"@ || key@
                == "from_user"@ || key@ == "from_host"@ || key@ == "register_source"@ || key@
                == "peer_cert_san"@
        },
        block is Header ==> r == Some(Kind::Text),
        block is Bridge ==> {
            &&& r == Some(Kind::Text) <==> key@ == "ws_url"@ || key@ == "ws_auth_header"@ || key@
                == "audio_direction"@ || key@ == "on_ws_failure"@
            &&& r == Some(Kind::Count) <==> key@ == "ws_connect_timeout_ms"@ || key@
                == "silence_threshold_ms"@ || key@ == "dead_air_threshold_ms"@ || key@
                == "rtp_stats_interval_ms"@
            &&& r == Some(Kind::Block(Block::BargeIn)) <==> key@ == "barge_in"@
            &&& r == Some(Kind::Block(Block::Tls)) <==> key@ == "tls"@
        },
        block is BargeIn ==> {
            &&& r == Some(Kind::Flag) <==> key@ == "enabled"@
            &&& r == Some(Kind::Text) <==> key@ == "mode"@
            &&& r == Some(Kind::Count) <==> key@ == "debounce_ms"@
        },
        block is Tls ==> (r == Some(Kind::Text) <==> key@ == "client_cert"@ || key@
            == "client_key"@ || key@ == "pinned_sha256"@),
        block is Media ==> {
            &&& r == Some(Kind::Texts) <==> key@ == "codecs"@
            &&& r == Some(Kind::Text) <==> key@ == "dtmf"@ || key@ == "srtp"@
            &&& r == Some(Kind::Count) <==> key@ == "inactivity_timeout_secs"@
            &&& r == Some(Kind::Ports) <==> key@ == "rtp_port_range"@
        },
        block is Security ==> (r == Some(Kind::Text) <==> key@ == "min_attestation"@),
        block is Recording ==> (r == Some(Kind::Text) <==> key@ == "mode"@),
        block is File ==> (r == Some(Kind::Routes) <==> key@ == "route"@),
        r is None ==> !(block is File || block is Header),
{
    the_blocks_of_a_route();
    the_keys_of_match_differ();
    the_keys_of_bridge_differ();
    the_keys_of_barge_in_differ();
    the_keys_of_tls_differ();
    the_keys_of_media_differ();
}

/// A text is read as its document is: the same routes, or the same error.
pub proof fn a_text_is_read_as_its_document(
    input: &str,
    r: Result<RawRouteFile, TomlError<String>>,
    document: Result<Vec<(String, TomlValue)>, String>,
    s: Result<RawRouteFile, TomlError<String>>,
)
    requires
        call_ensures(parse_routes, (input,), r),
        call_ensures(read_document, (input,), document),
        document is Ok ==> call_ensures(decode_file, (&document->Ok_0,), s),
    ensures
        document is Err ==> r is Err && r->Err_0 is Syntax && r->Err_0->Syntax_0@
            == document->Err_0@,
        document is Ok ==> (r is Ok <==> s is Ok),
        document is Ok && r is Err ==> r->Err_0.text() == s->Err_0.text(),
        document is Ok && r is Ok ==> r->Ok_0.routes@.len() == s->Ok_0.routes@.len(),
{
}

/// An error is told as what it is: one of the text behind a word on TOML, one of the
/// routes in its own words.
pub proof fn a_load_error_is_told_as_what_it_is(
    e: &LoadError,
    r: String,
    toml: String,
    routes: String,
)
    requires
        call_ensures(LoadError::to_string, (e,), r),
        *e is Toml ==> call_ensures(TomlError::<String>::to_string, (&e->Toml_0,), toml),
        *e is Compile ==> call_ensures(
            RouteError::<String>::message,
            (&e->Compile_0,),
            routes,
        ),
    ensures
        *e is Toml ==> r@ == "invalid TOML: "@ + toml@,
        *e is Compile ==> r@ == routes@,
{
}

} // verus!
