//! From a TOML document to a dialplan as written.
//!
//! A key that a route table does not define is refused, never dropped: a dropped
//! match key widens a route, a dropped override silently inherits. Only the
//! document's top level may hold other tables.
use vstd::prelude::*;

use crate::routes::document::{doc_of_parts, entries, items, Doc, TomlValue};
use crate::routes::raw::{
    BargeInOverride, BridgeOverride, BridgeTlsOverride, MediaOverride, RawRoute, RawRouteFile,
    RawRouteMatch, RecordingOverride, SecurityOverride,
};
use crate::text::{concat, concat3, str_eq};

verus! {

/// The tables of a dialplan.
#[derive(Debug, Clone, Copy, PartialEq, Eq, Structural)]
pub enum Block {
    /// The document itself.
    File,
    Route,
    Match,
    Header,
    Bridge,
    BargeIn,
    Tls,
    Media,
    Security,
    Recording,
}

/// What a key holds.
#[derive(Debug, Clone, Copy, PartialEq, Eq, Structural)]
pub enum Kind {
    Text,
    Flag,
    /// A whole number that is not negative.
    Count,
    /// A list of strings.
    Texts,
    /// Two port numbers; what follows them is not read.
    Ports,
    /// A table.
    Block(Block),
    /// The list of route tables.
    Routes,
    /// Not read.
    Anything,
}

/// What a key of a table holds; `None` for a key that the table does not have.
pub open spec fn kind_of(block: Block, key: Seq<char>) -> Option<Kind> {
    match block {
        Block::File => if key == "route"@ {
            Some(Kind::Routes)
        } else {
            Some(Kind::Anything)
        },
        Block::Header => Some(Kind::Text),
        Block::Route => if key == "name"@ {
            Some(Kind::Text)
        } else if key == "match"@ {
            Some(Kind::Block(Block::Match))
        } else if key == "bridge"@ {
            Some(Kind::Block(Block::Bridge))
        } else if key == "media"@ {
            Some(Kind::Block(Block::Media))
        } else if key == "security"@ {
            Some(Kind::Block(Block::Security))
        } else if key == "recording"@ {
            Some(Kind::Block(Block::Recording))
        } else {
            None
        },
        Block::Match => if key == "any"@ {
            Some(Kind::Flag)
        } else if key == "regex"@ {
            Some(Kind::Flag)
        } else if key == "request_uri_user"@ {
            Some(Kind::Text)
        } else if key == "request_uri_host"@ {
            Some(Kind::Text)
        } else if key == "to_user"@ {
            Some(Kind::Text)
        } else if key == "to_host"@ {
            Some(Kind::Text)
        } else if key == "from_user"@ {
            Some(Kind::Text)
        } else if key == "from_host"@ {
            Some(Kind::Text)
        } else if key == "register_source"@ {
            Some(Kind::Text)
        } else if key == "peer_cert_san"@ {
            Some(Kind::Text)
        } else if key == "header"@ {
            Some(Kind::Block(Block::Header))
        } else {
            None
        },
        Block::Bridge => if key == "ws_url"@ {
            Some(Kind::Text)
        } else if key == "ws_auth_header"@ {
            Some(Kind::Text)
        } else if key == "audio_direction"@ {
            Some(Kind::Text)
        } else if key == "on_ws_failure"@ {
            Some(Kind::Text)
        } else if key == "ws_connect_timeout_ms"@ {
            Some(Kind::Count)
        } else if key == "barge_in"@ {
            Some(Kind::Block(Block::BargeIn))
        } else if key == "silence_threshold_ms"@ {
            Some(Kind::Count)
        } else if key == "dead_air_threshold_ms"@ {
            Some(Kind::Count)
        } else if key == "rtp_stats_interval_ms"@ {
            Some(Kind::Count)
        } else if key == "tls"@ {
            Some(Kind::Block(Block::Tls))
        } else {
            None
        },
        Block::BargeIn => if key == "enabled"@ {
            Some(Kind::Flag)
        } else if key == "mode"@ {
            Some(Kind::Text)
        } else if key == "debounce_ms"@ {
            Some(Kind::Count)
        } else {
            None
        },
        Block::Tls => if key == "client_cert"@ {
            Some(Kind::Text)
        } else if key == "client_key"@ {
            Some(Kind::Text)
        } else if key == "pinned_sha256"@ {
            Some(Kind::Text)
        } else {
            None
        },
        Block::Media => if key == "codecs"@ {
            Some(Kind::Texts)
        } else if key == "dtmf"@ {
            Some(Kind::Text)
        } else if key == "inactivity_timeout_secs"@ {
            Some(Kind::Count)
        } else if key == "rtp_port_range"@ {
            Some(Kind::Ports)
        } else if key == "srtp"@ {
            Some(Kind::Text)
        } else {
            None
        },
        Block::Security => if key == "min_attestation"@ {
            Some(Kind::Text)
        } else {
            None
        },
        Block::Recording => if key == "mode"@ {
            Some(Kind::Text)
        } else {
            None
        },
    }
}

/// What `key` holds in a table of this kind.
pub fn kind(block: Block, key: &str) -> (r: Option<Kind>)
    ensures
        r == kind_of(block, key@),
{
    match block {
        Block::File => if str_eq(key, "route") {
            Some(Kind::Routes)
        } else {
            Some(Kind::Anything)
        },
        Block::Header => Some(Kind::Text),
        Block::Route => if str_eq(key, "name") {
            Some(Kind::Text)
        } else if str_eq(key, "match") {
            Some(Kind::Block(Block::Match))
        } else if str_eq(key, "bridge") {
            Some(Kind::Block(Block::Bridge))
        } else if str_eq(key, "media") {
            Some(Kind::Block(Block::Media))
        } else if str_eq(key, "security") {
            Some(Kind::Block(Block::Security))
        } else if str_eq(key, "recording") {
            Some(Kind::Block(Block::Recording))
        } else {
            None
        },
        Block::Match => if str_eq(key, "any") {
            Some(Kind::Flag)
        } else if str_eq(key, "regex") {
            Some(Kind::Flag)
        } else if str_eq(key, "request_uri_user") {
            Some(Kind::Text)
        } else if str_eq(key, "request_uri_host") {
            Some(Kind::Text)
        } else if str_eq(key, "to_user") {
            Some(Kind::Text)
        } else if str_eq(key, "to_host") {
            Some(Kind::Text)
        } else if str_eq(key, "from_user") {
            Some(Kind::Text)
        } else if str_eq(key, "from_host") {
            Some(Kind::Text)
        } else if str_eq(key, "register_source") {
            Some(Kind::Text)
        } else if str_eq(key, "peer_cert_san") {
            Some(Kind::Text)
        } else if str_eq(key, "header") {
            Some(Kind::Block(Block::Header))
        } else {
            None
        },
        Block::Bridge => if str_eq(key, "ws_url") {
            Some(Kind::Text)
        } else if str_eq(key, "ws_auth_header") {
            Some(Kind::Text)
        } else if str_eq(key, "audio_direction") {
            Some(Kind::Text)
        } else if str_eq(key, "on_ws_failure") {
            Some(Kind::Text)
        } else if str_eq(key, "ws_connect_timeout_ms") {
            Some(Kind::Count)
        } else if str_eq(key, "barge_in") {
            Some(Kind::Block(Block::BargeIn))
        } else if str_eq(key, "silence_threshold_ms") {
            Some(Kind::Count)
        } else if str_eq(key, "dead_air_threshold_ms") {
            Some(Kind::Count)
        } else if str_eq(key, "rtp_stats_interval_ms") {
            Some(Kind::Count)
        } else if str_eq(key, "tls") {
            Some(Kind::Block(Block::Tls))
        } else {
            None
        },
        Block::BargeIn => if str_eq(key, "enabled") {
            Some(Kind::Flag)
        } else if str_eq(key, "mode") {
            Some(Kind::Text)
        } else if str_eq(key, "debounce_ms") {
            Some(Kind::Count)
        } else {
            None
        },
        Block::Tls => if str_eq(key, "client_cert") {
            Some(Kind::Text)
        } else if str_eq(key, "client_key") {
            Some(Kind::Text)
        } else if str_eq(key, "pinned_sha256") {
            Some(Kind::Text)
        } else {
            None
        },
        Block::Media => if str_eq(key, "codecs") {
            Some(Kind::Texts)
        } else if str_eq(key, "dtmf") {
            Some(Kind::Text)
        } else if str_eq(key, "inactivity_timeout_secs") {
            Some(Kind::Count)
        } else if str_eq(key, "rtp_port_range") {
            Some(Kind::Ports)
        } else if str_eq(key, "srtp") {
            Some(Kind::Text)
        } else {
            None
        },
        Block::Security => if str_eq(key, "min_attestation") {
            Some(Kind::Text)
        } else {
            None
        },
        Block::Recording => if str_eq(key, "mode") {
            Some(Kind::Text)
        } else {
            None
        },
    }
}

/// The keys that a table cannot do without.
pub open spec fn required(block: Block) -> Seq<Seq<char>> {
    match block {
        Block::Route => seq!["name"@, "match"@],
        Block::Tls => seq!["client_cert"@, "client_key"@],
        _ => seq![],
    }
}

/// Why a document is no dialplan.
#[derive(Debug, Clone)]
pub enum TomlError<S> {
    /// The text is no TOML document.
    Syntax(S),
    /// A table has a key that it does not define.
    UnknownKey { block: Block, key: S },
    /// A table lacks a key.
    MissingKey { block: Block, key: S },
    /// A key holds something else than it should.
    WrongType { block: Block, key: S },
}

impl TomlError<String> {
    /// The same error over the views of its texts.
    pub open spec fn text(self) -> TomlError<Seq<char>> {
        match self {
            TomlError::Syntax(m) => TomlError::Syntax(m@),
            TomlError::UnknownKey { block, key } => TomlError::UnknownKey { block, key: key@ },
            TomlError::MissingKey { block, key } => TomlError::MissingKey { block, key: key@ },
            TomlError::WrongType { block, key } => TomlError::WrongType { block, key: key@ },
        }
    }

    /// The error as text; it names the key at fault.
    pub fn to_string(&self) -> (r: String)
        ensures
            r@ == message_of(self.text()),
    {
        match self {
            TomlError::Syntax(m) => m.clone(),
            TomlError::UnknownKey { block, key } => {
                let mut r = concat3("unknown field `", key.as_str(), "` in ");
                r.push_str(block_name(*block));
                r
            },
            TomlError::MissingKey { block, key } => {
                let mut r = concat3("missing field `", key.as_str(), "` in ");
                r.push_str(block_name(*block));
                r
            },
            TomlError::WrongType { block, key } => {
                let mut r = concat3("invalid type for `", key.as_str(), "` in ");
                r.push_str(block_name(*block));
                r
            },
        }
    }
}

/// How a message names a table.
pub open spec fn name_of(block: Block) -> Seq<char> {
    match block {
        Block::File => "the document"@,
        Block::Route => "[[route]]"@,
        Block::Match => "[route.match]"@,
        Block::Header => "[route.match.header]"@,
        Block::Bridge => "[route.bridge]"@,
        Block::BargeIn => "[route.bridge.barge_in]"@,
        Block::Tls => "[route.bridge.tls]"@,
        Block::Media => "[route.media]"@,
        Block::Security => "[route.security]"@,
        Block::Recording => "[route.recording]"@,
    }
}

fn block_name(block: Block) -> (r: &'static str)
    ensures
        r@ == name_of(block),
{
    match block {
        Block::File => "the document",
        Block::Route => "[[route]]",
        Block::Match => "[route.match]",
        Block::Header => "[route.match.header]",
        Block::Bridge => "[route.bridge]",
        Block::BargeIn => "[route.bridge.barge_in]",
        Block::Tls => "[route.bridge.tls]",
        Block::Media => "[route.media]",
        Block::Security => "[route.security]",
        Block::Recording => "[route.recording]",
    }
}

/// The text of each error.
pub open spec fn message_of(e: TomlError<Seq<char>>) -> Seq<char> {
    match e {
        TomlError::Syntax(m) => m,
        TomlError::UnknownKey { block, key } => "unknown field `"@ + key + "` in "@ + name_of(block),
        TomlError::MissingKey { block, key } => "missing field `"@ + key + "` in "@ + name_of(block),
        TomlError::WrongType { block, key } => "invalid type for `"@ + key + "` in "@ + name_of(
            block,
        ),
    }
}

// ---- What is wrong with a document ----

/// The entries of a table.
pub type Entries = Seq<(Seq<char>, Doc)>;

/// The value of `key`: its first one.
pub open spec fn lookup(e: Entries, key: Seq<char>) -> Option<Doc>
    decreases e.len(),
{
    if e.len() == 0 {
        None
    } else if e[0].0 == key {
        Some(e[0].1)
    } else {
        lookup(e.drop_first(), key)
    }
}

/// The first required key, from the `i`th on, that the table lacks.
pub open spec fn missing_from(block: Block, e: Entries, i: int) -> Option<TomlError<Seq<char>>>
    decreases required(block).len() - i,
{
    if i >= required(block).len() {
        None
    } else if lookup(e, required(block)[i]) is None {
        Some(TomlError::MissingKey { block, key: required(block)[i] })
    } else {
        missing_from(block, e, i + 1)
    }
}

/// A port number.
pub open spec fn is_port(d: Doc) -> bool {
    d matches Doc::Integer(i) && 0 <= i <= 65535
}

/// The value of one key does not fit.
pub open spec fn value_fault(block: Block, key: Seq<char>, kind: Kind, d: Doc) -> Option<
    TomlError<Seq<char>>,
>
    decreases d, 1int,
{
    let wrong = Some(TomlError::WrongType { block, key });
    match (kind, d) {
        (Kind::Text, Doc::Text(_)) => None,
        (Kind::Flag, Doc::Flag(_)) => None,
        (Kind::Count, Doc::Integer(i)) => if i >= 0 {
            None
        } else {
            wrong
        },
        (Kind::Texts, Doc::Items(v)) => if forall|i: int|
            0 <= i < v.len() ==> (#[trigger] v[i]) is Text {
            None
        } else {
            wrong
        },
        (Kind::Ports, Doc::Items(v)) => if v.len() >= 2 && is_port(v[0]) && is_port(v[1]) {
            None
        } else {
            wrong
        },
        (Kind::Block(b), Doc::Table(e)) => table_fault(b, e, 0),
        (Kind::Routes, Doc::Items(v)) => list_fault(v, 0),
        (Kind::Anything, _) => None,
        _ => wrong,
    }
}

/// The first entry at fault, from the `i`th on, then the first missing key.
pub open spec fn table_fault(block: Block, e: Entries, i: int) -> Option<TomlError<Seq<char>>>
    decreases e, 0int, e.len() - i,
{
    if i < 0 || i >= e.len() {
        missing_from(block, e, 0)
    } else {
        match kind_of(block, e[i].0) {
            None => Some(TomlError::UnknownKey { block, key: e[i].0 }),
            Some(kind) => {
                let here = value_fault(block, e[i].0, kind, e[i].1);
                if here is Some {
                    here
                } else {
                    table_fault(block, e, i + 1)
                }
            },
        }
    }
}

/// The first route at fault, from the `i`th on.
pub open spec fn list_fault(v: Seq<Doc>, i: int) -> Option<TomlError<Seq<char>>>
    decreases v, 0int, v.len() - i,
{
    if i < 0 || i >= v.len() {
        None
    } else {
        let here = match v[i] {
            Doc::Table(e) => table_fault(Block::Route, e, 0),
            _ => Some(TomlError::WrongType { block: Block::File, key: "route"@ }),
        };
        if here is Some {
            here
        } else {
            list_fault(v, i + 1)
        }
    }
}

// ---- Finding it ----

fn position(e: &Vec<(String, TomlValue)>, key: &str) -> (i: usize)
    ensures
        i <= e@.len(),
        match lookup(entries(e@), key@) {
            Some(d) => i < e@.len() && e@[i as int].1.doc() == d,
            None => i == e@.len(),
        },
{
    let mut i: usize = 0;
    let ghost all = entries(e@);
    assert(all.subrange(0, all.len() as int) =~= all);
    while i < e.len()
        invariant
            i <= e@.len(),
            all == entries(e@),
            lookup(all, key@) == lookup(all.subrange(i as int, all.len() as int), key@),
        decreases e@.len() - i,
    {
        let ghost rest = all.subrange(i as int, all.len() as int);
        assert(rest[0] == all[i as int]);
        if str_eq(e[i].0.as_str(), key) {
            return i;
        }
        assert(rest.drop_first() =~= all.subrange(i + 1, all.len() as int));
        i += 1;
    }
    i
}

fn missing_key(block: Block, e: &Vec<(String, TomlValue)>) -> (r: Option<TomlError<String>>)
    ensures
        match r {
            Some(f) => missing_from(block, entries(e@), 0) == Some(f.text()),
            None => missing_from(block, entries(e@), 0) is None,
        },
{
    proof {
        reveal_with_fuel(missing_from, 3);
    }
    match block {
        Block::Route => {
            if position(e, "name") == e.len() {
                return Some(TomlError::MissingKey { block, key: "name".to_owned() });
            }
            if position(e, "match") == e.len() {
                return Some(TomlError::MissingKey { block, key: "match".to_owned() });
            }
            None
        },
        Block::Tls => {
            if position(e, "client_cert") == e.len() {
                return Some(TomlError::MissingKey { block, key: "client_cert".to_owned() });
            }
            if position(e, "client_key") == e.len() {
                return Some(TomlError::MissingKey { block, key: "client_key".to_owned() });
            }
            None
        },
        _ => None,
    }
}

fn all_texts(v: &Vec<TomlValue>) -> (r: bool)
    ensures
        r == (forall|i: int| 0 <= i < items(v@).len() ==> (#[trigger] items(v@)[i]) is Text),
{
    let mut i: usize = 0;
    while i < v.len()
        invariant
            i <= v@.len(),
            forall|k: int| 0 <= k < i ==> (#[trigger] items(v@)[k]) is Text,
        decreases v@.len() - i,
    {
        assert(items(v@)[i as int] == v@[i as int].doc());
        match &v[i] {
            TomlValue::Text(_) => {},
            _ => {
                assert(!(items(v@)[i as int] is Text));
                return false;
            },
        }
        i += 1;
    }
    true
}

fn port(v: &TomlValue) -> (r: Option<u16>)
    ensures
        match r {
            Some(p) => v.doc() == Doc::Integer(p as i64) && is_port(v.doc()),
            None => !is_port(v.doc()),
        },
{
    match v {
        TomlValue::Integer(i) => if 0 <= *i && *i <= 65535 {
            Some(*i as u16)
        } else {
            None
        },
        _ => None,
    }
}

fn check_value(block: Block, key: &String, kind: Kind, v: &TomlValue) -> (r: Option<
    TomlError<String>,
>)
    ensures
        match r {
            Some(f) => value_fault(block, key@, kind, v.doc()) == Some(f.text()),
            None => value_fault(block, key@, kind, v.doc()) is None,
        },
    decreases v.doc(), 1int, 0int,
{
    proof {
        doc_of_parts(*v);
    }
    let ok = match (kind, v) {
        (Kind::Text, TomlValue::Text(_)) => true,
        (Kind::Flag, TomlValue::Flag(_)) => true,
        (Kind::Count, TomlValue::Integer(i)) => *i >= 0,
        (Kind::Texts, TomlValue::Items(x)) => all_texts(x),
        (Kind::Ports, TomlValue::Items(x)) => {
            proof {
                if x@.len() >= 2 {
                    assert(items(x@)[0] == x@[0].doc());
                    assert(items(x@)[1] == x@[1].doc());
                }
            }
            x.len() >= 2 && port(&x[0]).is_some() && port(&x[1]).is_some()
        },
        (Kind::Block(b), TomlValue::Table(e)) => {
            return check_table(b, e);
        },
        (Kind::Routes, TomlValue::Items(x)) => {
            return check_list(x);
        },
        (Kind::Anything, _) => true,
        _ => false,
    };
    if ok {
        None
    } else {
        Some(TomlError::WrongType { block, key: key.clone() })
    }
}

/// What is wrong with a table, if anything.
pub fn check_table(block: Block, e: &Vec<(String, TomlValue)>) -> (r: Option<TomlError<String>>)
    ensures
        match r {
            Some(f) => table_fault(block, entries(e@), 0) == Some(f.text()),
            None => table_fault(block, entries(e@), 0) is None,
        },
    decreases entries(e@), 0int, 1int,
{
    let ghost all = entries(e@);
    let mut i: usize = 0;
    while i < e.len()
        invariant
            i <= e@.len(),
            all == entries(e@),
            table_fault(block, all, 0) == table_fault(block, all, i as int),
        decreases e@.len() - i,
    {
        assert(all[i as int] == (e@[i as int].0@, e@[i as int].1.doc()));
        assert(decreases_to!(all => all[i as int]));
        assert(decreases_to!(all[i as int] => all[i as int].1));
        match kind(block, e[i].0.as_str()) {
            None => {
                return Some(TomlError::UnknownKey { block, key: e[i].0.clone() });
            },
            Some(k) => {
                if let Some(f) = check_value(block, &e[i].0, k, &e[i].1) {
                    return Some(f);
                }
            },
        }
        i += 1;
    }
    missing_key(block, e)
}

fn check_list(v: &Vec<TomlValue>) -> (r: Option<TomlError<String>>)
    ensures
        match r {
            Some(f) => list_fault(items(v@), 0) == Some(f.text()),
            None => list_fault(items(v@), 0) is None,
        },
    decreases items(v@), 0int, 1int,
{
    let ghost all = items(v@);
    let mut i: usize = 0;
    while i < v.len()
        invariant
            i <= v@.len(),
            all == items(v@),
            list_fault(all, 0) == list_fault(all, i as int),
        decreases v@.len() - i,
    {
        assert(all[i as int] == v@[i as int].doc());
        assert(decreases_to!(all => all[i as int]));
        proof {
            doc_of_parts(v@[i as int]);
        }
        match &v[i] {
            TomlValue::Table(e) => {
                assert(decreases_to!(all[i as int] => all[i as int]->Table_0));
                if let Some(f) = check_table(Block::Route, e) {
                    return Some(f);
                }
            },
            _ => {
                return Some(TomlError::WrongType { block: Block::File, key: "route".to_owned() });
            },
        }
        i += 1;
    }
    None
}

// ---- What a document says ----

/// The text under `key`.
pub open spec fn text_at(e: Entries, key: Seq<char>) -> Option<Seq<char>> {
    match lookup(e, key) {
        Some(Doc::Text(s)) => Some(s),
        _ => None,
    }
}

/// The flag under `key`.
pub open spec fn flag_at(e: Entries, key: Seq<char>) -> Option<bool> {
    match lookup(e, key) {
        Some(Doc::Flag(b)) => Some(b),
        _ => None,
    }
}

/// The number under `key`.
pub open spec fn count_at(e: Entries, key: Seq<char>) -> Option<u64> {
    match lookup(e, key) {
        Some(Doc::Integer(i)) => if i >= 0 {
            Some(i as u64)
        } else {
            None
        },
        _ => None,
    }
}

/// The table under `key`; an empty one where there is none.
pub open spec fn table_at(e: Entries, key: Seq<char>) -> Entries {
    match lookup(e, key) {
        Some(Doc::Table(t)) => t,
        _ => seq![],
    }
}

/// The text of a value that is a string.
pub open spec fn text_of(d: Doc) -> Seq<char> {
    match d {
        Doc::Text(s) => s,
        _ => seq![],
    }
}

/// The strings under `key`.
pub open spec fn texts_at(e: Entries, key: Seq<char>) -> Option<Seq<Seq<char>>> {
    match lookup(e, key) {
        Some(Doc::Items(v)) => Some(Seq::new(v.len(), |i: int| text_of(v[i]))),
        _ => None,
    }
}

/// The two ports under `key`.
pub open spec fn ports_at(e: Entries, key: Seq<char>) -> Option<(u16, u16)> {
    match lookup(e, key) {
        Some(Doc::Items(v)) => if v.len() >= 2 && is_port(v[0]) && is_port(v[1]) {
            Some((v[0]->Integer_0 as u16, v[1]->Integer_0 as u16))
        } else {
            None
        },
        _ => None,
    }
}

/// The view of an optional string.
pub open spec fn seen(s: Option<String>) -> Option<Seq<char>> {
    match s {
        Some(t) => Some(t@),
        None => None,
    }
}

/// `m` is the match block of the table.
pub open spec fn is_match(m: RawRouteMatch, e: Entries) -> bool {
    &&& m.any == (flag_at(e, "any"@) == Some(true))
    &&& m.regex == (flag_at(e, "regex"@) == Some(true))
    &&& seen(m.request_uri_user) == text_at(e, "request_uri_user"@)
    &&& seen(m.request_uri_host) == text_at(e, "request_uri_host"@)
    &&& seen(m.to_user) == text_at(e, "to_user"@)
    &&& seen(m.to_host) == text_at(e, "to_host"@)
    &&& seen(m.from_user) == text_at(e, "from_user"@)
    &&& seen(m.from_host) == text_at(e, "from_host"@)
    &&& seen(m.register_source) == text_at(e, "register_source"@)
    &&& seen(m.peer_cert_san) == text_at(e, "peer_cert_san"@)
    &&& are_headers(m.header@, table_at(e, "header"@))
}

/// The header predicates are the entries of the table, in order.
pub open spec fn are_headers(h: Seq<(String, String)>, e: Entries) -> bool {
    &&& h.len() == e.len()
    &&& forall|i: int|
        0 <= i < h.len() ==> (#[trigger] h[i]).0@ == e[i].0 && h[i].1@ == text_of(e[i].1)
}

/// `b` is the barge-in block of the table.
pub open spec fn is_barge_in(b: BargeInOverride, e: Entries) -> bool {
    &&& b.enabled == flag_at(e, "enabled"@)
    &&& seen(b.mode) == text_at(e, "mode"@)
    &&& b.debounce_ms == count_at(e, "debounce_ms"@)
}

/// `t` is the TLS block, where there is one.
pub open spec fn is_tls(t: Option<BridgeTlsOverride>, d: Option<Doc>) -> bool {
    match (t, d) {
        (Some(tls), Some(Doc::Table(e))) => {
            &&& Some(tls.client_cert@) == text_at(e, "client_cert"@)
            &&& Some(tls.client_key@) == text_at(e, "client_key"@)
            &&& seen(tls.pinned_sha256) == text_at(e, "pinned_sha256"@)
        },
        (None, None) => true,
        _ => false,
    }
}

/// `b` is the bridge block of the table.
pub open spec fn is_bridge(b: BridgeOverride, e: Entries) -> bool {
    &&& seen(b.ws_url) == text_at(e, "ws_url"@)
    &&& seen(b.ws_auth_header) == text_at(e, "ws_auth_header"@)
    &&& seen(b.audio_direction) == text_at(e, "audio_direction"@)
    &&& seen(b.on_ws_failure) == text_at(e, "on_ws_failure"@)
    &&& b.ws_connect_timeout_ms == count_at(e, "ws_connect_timeout_ms"@)
    &&& is_barge_in(b.barge_in, table_at(e, "barge_in"@))
    &&& b.silence_threshold_ms == count_at(e, "silence_threshold_ms"@)
    &&& b.dead_air_threshold_ms == count_at(e, "dead_air_threshold_ms"@)
    &&& b.rtp_stats_interval_ms == count_at(e, "rtp_stats_interval_ms"@)
    &&& is_tls(b.tls, lookup(e, "tls"@))
}

/// The views of an optional list of strings.
pub open spec fn seen_list(v: Option<Vec<String>>) -> Option<Seq<Seq<char>>> {
    match v {
        Some(l) => Some(crate::text::views(l@)),
        None => None,
    }
}

/// `m` is the media block of the table.
pub open spec fn is_media(m: MediaOverride, e: Entries) -> bool {
    &&& seen_list(m.codecs) == texts_at(e, "codecs"@)
    &&& seen(m.dtmf) == text_at(e, "dtmf"@)
    &&& m.inactivity_timeout_secs == count_at(e, "inactivity_timeout_secs"@)
    &&& m.rtp_port_range == ports_at(e, "rtp_port_range"@)
    &&& seen(m.srtp) == text_at(e, "srtp"@)
}

/// `r` is the route of the table.
pub open spec fn is_route(r: RawRoute, e: Entries) -> bool {
    &&& Some(r.name@) == text_at(e, "name"@)
    &&& is_match(r.match_, table_at(e, "match"@))
    &&& is_bridge(r.bridge, table_at(e, "bridge"@))
    &&& is_media(r.media, table_at(e, "media"@))
    &&& seen(r.security.min_attestation) == text_at(table_at(e, "security"@), "min_attestation"@)
    &&& seen(r.recording.mode) == text_at(table_at(e, "recording"@), "mode"@)
}

/// The route tables of a document, in order.
pub open spec fn route_tables(e: Entries) -> Seq<Doc> {
    match lookup(e, "route"@) {
        Some(Doc::Items(v)) => v,
        _ => seq![],
    }
}

/// The entries of a value that is a table.
pub open spec fn entries_of(d: Doc) -> Entries {
    match d {
        Doc::Table(e) => e,
        _ => seq![],
    }
}

/// `routes` are the routes of the document, in file order.
pub open spec fn are_routes(routes: Seq<RawRoute>, e: Entries) -> bool {
    &&& routes.len() == route_tables(e).len()
    &&& forall|i: int|
        0 <= i < routes.len() ==> is_route(#[trigger] routes[i], entries_of(route_tables(e)[i]))
}

// ---- Reading it ----

fn get_text(e: &Vec<(String, TomlValue)>, key: &str) -> (r: Option<String>)
    ensures
        seen(r) == text_at(entries(e@), key@),
{
    let i = position(e, key);
    if i < e.len() {
        match &e[i].1 {
            TomlValue::Text(s) => Some(s.clone()),
            _ => None,
        }
    } else {
        None
    }
}

fn get_flag(e: &Vec<(String, TomlValue)>, key: &str) -> (r: Option<bool>)
    ensures
        r == flag_at(entries(e@), key@),
{
    let i = position(e, key);
    if i < e.len() {
        match &e[i].1 {
            TomlValue::Flag(b) => Some(*b),
            _ => None,
        }
    } else {
        None
    }
}

fn get_count(e: &Vec<(String, TomlValue)>, key: &str) -> (r: Option<u64>)
    ensures
        r == count_at(entries(e@), key@),
{
    let i = position(e, key);
    if i < e.len() {
        match &e[i].1 {
            TomlValue::Integer(n) => if *n >= 0 {
                Some(*n as u64)
            } else {
                None
            },
            _ => None,
        }
    } else {
        None
    }
}

fn get_table<'a>(e: &'a Vec<(String, TomlValue)>, key: &str) -> (r: Option<
    &'a Vec<(String, TomlValue)>,
>)
    ensures
        match r {
            Some(t) => lookup(entries(e@), key@) == Some(Doc::Table(entries(t@))),
            None => !(lookup(entries(e@), key@) matches Some(Doc::Table(_))),
        },
{
    let i = position(e, key);
    if i < e.len() {
        proof {
            doc_of_parts(e@[i as int].1);
        }
        match &e[i].1 {
            TomlValue::Table(t) => Some(t),
            _ => None,
        }
    } else {
        None
    }
}

fn get_texts(e: &Vec<(String, TomlValue)>, key: &str) -> (r: Option<Vec<String>>)
    ensures
        seen_list(r) == texts_at(entries(e@), key@),
{
    let i = position(e, key);
    if i >= e.len() {
        return None;
    }
    proof {
        doc_of_parts(e@[i as int].1);
    }
    let v = match &e[i].1 {
        TomlValue::Items(v) => v,
        _ => {
            return None;
        },
    };
    let mut out: Vec<String> = Vec::new();
    let mut k: usize = 0;
    while k < v.len()
        invariant
            k <= v@.len(),
            out@.len() == k,
            forall|j: int| 0 <= j < k ==> (#[trigger] out@[j])@ == text_of(v@[j].doc()),
        decreases v@.len() - k,
    {
        match &v[k] {
            TomlValue::Text(s) => {
                out.push(s.clone());
            },
            _ => {
                let s = String::new();
                assert(s@ =~= Seq::<char>::empty());
                out.push(s);
            },
        }
        k += 1;
    }
    proof {
        let all = items(v@);
        assert(crate::text::views(out@) =~= Seq::new(all.len(), |i: int| text_of(all[i])));
    }
    Some(out)
}

fn get_ports(e: &Vec<(String, TomlValue)>, key: &str) -> (r: Option<(u16, u16)>)
    ensures
        r == ports_at(entries(e@), key@),
{
    let i = position(e, key);
    if i >= e.len() {
        return None;
    }
    proof {
        doc_of_parts(e@[i as int].1);
    }
    match &e[i].1 {
        TomlValue::Items(v) => {
            if v.len() < 2 {
                return None;
            }
            proof {
                assert(items(v@)[0] == v@[0].doc());
                assert(items(v@)[1] == v@[1].doc());
            }
            match (port(&v[0]), port(&v[1])) {
                (Some(a), Some(b)) => Some((a, b)),
                _ => None,
            }
        },
        _ => None,
    }
}

fn read_headers(e: &Vec<(String, TomlValue)>) -> (r: Vec<(String, String)>)
    ensures
        are_headers(r@, entries(e@)),
{
    let mut out: Vec<(String, String)> = Vec::new();
    let mut i: usize = 0;
    while i < e.len()
        invariant
            i <= e@.len(),
            out@.len() == i,
            forall|k: int|
                0 <= k < i ==> (#[trigger] out@[k]).0@ == e@[k].0@ && out@[k].1@ == text_of(
                    e@[k].1.doc(),
                ),
        decreases e@.len() - i,
    {
        let value = match &e[i].1 {
            TomlValue::Text(s) => s.clone(),
            _ => {
                let s = String::new();
                assert(s@ =~= Seq::<char>::empty());
                s
            },
        };
        out.push((e[i].0.clone(), value));
        i += 1;
    }
    out
}

fn read_match(e: &Vec<(String, TomlValue)>) -> (r: RawRouteMatch)
    ensures
        is_match(r, entries(e@)),
{
    let none: Vec<(String, TomlValue)> = Vec::new();
    assert(entries(none@) =~= seq![]);
    let header = match get_table(e, "header") {
        Some(t) => read_headers(t),
        None => read_headers(&none),
    };
    RawRouteMatch {
        any: match get_flag(e, "any") {
            Some(b) => b,
            None => false,
        },
        regex: match get_flag(e, "regex") {
            Some(b) => b,
            None => false,
        },
        request_uri_user: get_text(e, "request_uri_user"),
        request_uri_host: get_text(e, "request_uri_host"),
        to_user: get_text(e, "to_user"),
        to_host: get_text(e, "to_host"),
        from_user: get_text(e, "from_user"),
        from_host: get_text(e, "from_host"),
        register_source: get_text(e, "register_source"),
        peer_cert_san: get_text(e, "peer_cert_san"),
        header,
    }
}

fn read_barge_in(e: &Vec<(String, TomlValue)>) -> (r: BargeInOverride)
    ensures
        is_barge_in(r, entries(e@)),
{
    BargeInOverride {
        enabled: get_flag(e, "enabled"),
        mode: get_text(e, "mode"),
        debounce_ms: get_count(e, "debounce_ms"),
    }
}

/// The entries of a table that `table_fault` passes are all known, fit their
/// kinds, and every required key is there.
proof fn a_sound_table(block: Block, e: Entries, from: int)
    requires
        0 <= from <= e.len(),
        table_fault(block, e, from) is None,
    ensures
        missing_from(block, e, 0) is None,
        forall|i: int|
            from <= i < e.len() ==> kind_of(block, (#[trigger] e[i]).0) is Some && value_fault(
                block,
                e[i].0,
                kind_of(block, e[i].0).unwrap(),
                e[i].1,
            ) is None,
    decreases e.len() - from,
{
    if from < e.len() {
        a_sound_table(block, e, from + 1);
    }
}

/// What `lookup` finds is an entry.
proof fn lookup_finds_an_entry(e: Entries, key: Seq<char>)
    requires
        lookup(e, key) is Some,
    ensures
        exists|i: int| 0 <= i < e.len() && (#[trigger] e[i]) == (key, lookup(e, key).unwrap()),
    decreases e.len(),
{
    if e[0].0 == key {
        assert(e[0] == (key, lookup(e, key).unwrap()));
    } else {
        let rest = e.drop_first();
        lookup_finds_an_entry(rest, key);
        let i = choose|i: int|
            0 <= i < rest.len() && (#[trigger] rest[i]) == (key, lookup(rest, key).unwrap());
        assert(e[i + 1] == rest[i]);
    }
}

/// In a sound table, what stands under a key fits its kind.
proof fn a_sound_value(block: Block, e: Entries, key: Seq<char>)
    requires
        table_fault(block, e, 0) is None,
        lookup(e, key) is Some,
    ensures
        kind_of(block, key) is Some,
        value_fault(block, key, kind_of(block, key).unwrap(), lookup(e, key).unwrap()) is None,
{
    a_sound_table(block, e, 0);
    lookup_finds_an_entry(e, key);
}

fn read_tls(e: &Vec<(String, TomlValue)>) -> (r: BridgeTlsOverride)
    requires
        table_fault(Block::Tls, entries(e@), 0) is None,
    ensures
        is_tls(Some(r), Some(Doc::Table(entries(e@)))),
{
    proof {
        let all = entries(e@);
        a_sound_table(Block::Tls, all, 0);
        reveal_with_fuel(missing_from, 3);
        assert(required(Block::Tls)[0] == "client_cert"@);
        assert(required(Block::Tls)[1] == "client_key"@);
        a_sound_value(Block::Tls, all, "client_cert"@);
        a_sound_value(Block::Tls, all, "client_key"@);
    }
    let client_cert = match get_text(e, "client_cert") {
        Some(s) => s,
        None => String::new(),
    };
    let client_key = match get_text(e, "client_key") {
        Some(s) => s,
        None => String::new(),
    };
    BridgeTlsOverride { client_cert, client_key, pinned_sha256: get_text(e, "pinned_sha256") }
}

fn read_bridge(e: &Vec<(String, TomlValue)>) -> (r: BridgeOverride)
    requires
        table_fault(Block::Bridge, entries(e@), 0) is None,
    ensures
        is_bridge(r, entries(e@)),
{
    let none: Vec<(String, TomlValue)> = Vec::new();
    assert(entries(none@) =~= seq![]);
    let barge_in = match get_table(e, "barge_in") {
        Some(t) => read_barge_in(t),
        None => read_barge_in(&none),
    };
    proof {
        if lookup(entries(e@), "tls"@) is Some {
            a_sound_value(Block::Bridge, entries(e@), "tls"@);
            tls_is_a_table();
        }
    }
    let tls = match get_table(e, "tls") {
        Some(t) => Some(read_tls(t)),
        None => None,
    };
    BridgeOverride {
        ws_url: get_text(e, "ws_url"),
        ws_auth_header: get_text(e, "ws_auth_header"),
        audio_direction: get_text(e, "audio_direction"),
        on_ws_failure: get_text(e, "on_ws_failure"),
        ws_connect_timeout_ms: get_count(e, "ws_connect_timeout_ms"),
        barge_in,
        silence_threshold_ms: get_count(e, "silence_threshold_ms"),
        dead_air_threshold_ms: get_count(e, "dead_air_threshold_ms"),
        rtp_stats_interval_ms: get_count(e, "rtp_stats_interval_ms"),
        tls,
    }
}

proof fn tls_is_a_table()
    ensures
        kind_of(Block::Bridge, "tls"@) == Some(Kind::Block(Block::Tls)),
{
    reveal_strlit("tls");
    reveal_strlit("ws_url");
    reveal_strlit("ws_auth_header");
    reveal_strlit("audio_direction");
    reveal_strlit("on_ws_failure");
    reveal_strlit("ws_connect_timeout_ms");
    reveal_strlit("barge_in");
    reveal_strlit("silence_threshold_ms");
    reveal_strlit("dead_air_threshold_ms");
    reveal_strlit("rtp_stats_interval_ms");
    assert("tls"@.len() == 3);
    assert("ws_url"@.len() == 6);
    assert("ws_auth_header"@.len() == 14);
    assert("audio_direction"@.len() == 15);
    assert("on_ws_failure"@.len() == 13);
    assert("ws_connect_timeout_ms"@.len() == 21);
    assert("barge_in"@.len() == 8);
    assert("silence_threshold_ms"@.len() == 20);
    assert("dead_air_threshold_ms"@.len() == 21);
    assert("rtp_stats_interval_ms"@.len() == 21);
}

fn read_media(e: &Vec<(String, TomlValue)>) -> (r: MediaOverride)
    ensures
        is_media(r, entries(e@)),
{
    MediaOverride {
        codecs: get_texts(e, "codecs"),
        dtmf: get_text(e, "dtmf"),
        inactivity_timeout_secs: get_count(e, "inactivity_timeout_secs"),
        rtp_port_range: get_ports(e, "rtp_port_range"),
        srtp: get_text(e, "srtp"),
    }
}

proof fn kinds_of_a_route()
    ensures
        kind_of(Block::Route, "name"@) == Some(Kind::Text),
        kind_of(Block::Route, "bridge"@) == Some(Kind::Block(Block::Bridge)),
{
    reveal_strlit("bridge");
    reveal_strlit("name");
    reveal_strlit("match");
    assert("bridge"@.len() == 6);
    assert("name"@.len() == 4);
    assert("match"@.len() == 5);
}

fn read_route(e: &Vec<(String, TomlValue)>) -> (r: RawRoute)
    requires
        table_fault(Block::Route, entries(e@), 0) is None,
    ensures
        is_route(r, entries(e@)),
{
    let none: Vec<(String, TomlValue)> = Vec::new();
    assert(entries(none@) =~= seq![]);
    proof {
        let all = entries(e@);
        a_sound_table(Block::Route, all, 0);
        reveal_with_fuel(missing_from, 3);
        assert(required(Block::Route)[0] == "name"@);
        kinds_of_a_route();
        a_sound_value(Block::Route, all, "name"@);
        if lookup(all, "bridge"@) is Some {
            a_sound_value(Block::Route, all, "bridge"@);
        }
        assert(table_fault(Block::Bridge, seq![], 0) is None);
    }
    let name = match get_text(e, "name") {
        Some(s) => s,
        None => String::new(),
    };
    let match_ = match get_table(e, "match") {
        Some(t) => read_match(t),
        None => read_match(&none),
    };
    let bridge = match get_table(e, "bridge") {
        Some(t) => read_bridge(t),
        None => read_bridge(&none),
    };
    let media = match get_table(e, "media") {
        Some(t) => read_media(t),
        None => read_media(&none),
    };
    let min_attestation = match get_table(e, "security") {
        Some(t) => get_text(t, "min_attestation"),
        None => get_text(&none, "min_attestation"),
    };
    let mode = match get_table(e, "recording") {
        Some(t) => get_text(t, "mode"),
        None => get_text(&none, "mode"),
    };
    RawRoute {
        name,
        match_,
        bridge,
        media,
        security: SecurityOverride { min_attestation },
        recording: RecordingOverride { mode },
    }
}

proof fn a_sound_list(v: Seq<Doc>, from: int)
    requires
        0 <= from <= v.len(),
        list_fault(v, from) is None,
    ensures
        forall|i: int|
            from <= i < v.len() ==> (#[trigger] v[i]) is Table && table_fault(
                Block::Route,
                v[i]->Table_0,
                0,
            ) is None,
    decreases v.len() - from,
{
    if from < v.len() {
        a_sound_list(v, from + 1);
    }
}

/// The dialplan of a document. Nothing is dropped: an unknown key, a missing one
/// or a value of the wrong type is an error.
pub fn decode_file(e: &Vec<(String, TomlValue)>) -> (r: Result<RawRouteFile, TomlError<String>>)
    ensures
        match r {
            Ok(f) => table_fault(Block::File, entries(e@), 0) is None && are_routes(
                f.routes@,
                entries(e@),
            ),
            Err(x) => table_fault(Block::File, entries(e@), 0) == Some(x.text()),
        },
{
    if let Some(f) = check_table(Block::File, e) {
        return Err(f);
    }
    let mut routes: Vec<RawRoute> = Vec::new();
    let i = position(e, "route");
    if i >= e.len() {
        return Ok(RawRouteFile { routes });
    }
    proof {
        a_sound_value(Block::File, entries(e@), "route"@);
        doc_of_parts(e@[i as int].1);
    }
    if let TomlValue::Items(v) = &e[i].1 {
        let ghost all = items(v@);
        proof {
            a_sound_list(all, 0);
        }
        let mut k: usize = 0;
        while k < v.len()
            invariant
                k <= v@.len(),
                all == items(v@),
                forall|j: int|
                    0 <= j < all.len() ==> (#[trigger] all[j]) is Table && table_fault(
                        Block::Route,
                        all[j]->Table_0,
                        0,
                    ) is None,
                routes@.len() == k,
                forall|j: int| 0 <= j < k ==> is_route(#[trigger] routes@[j], entries_of(all[j])),
            decreases v@.len() - k,
        {
            assert(all[k as int] == v@[k as int].doc());
            proof {
                doc_of_parts(v@[k as int]);
            }
            if let TomlValue::Table(t) = &v[k] {
                routes.push(read_route(t));
            }
            k += 1;
        }
    }
    Ok(RawRouteFile { routes })
}

// ---- What is promised of every document ----

/// A key that a route table does not define is refused, wherever it stands in
/// the table.
pub proof fn an_unknown_key_is_refused(block: Block, e: Entries, i: int)
    requires
        0 <= i < e.len(),
        kind_of(block, e[i].0) is None,
    ensures
        table_fault(block, e, 0) is Some,
{
    if table_fault(block, e, 0) is None {
        a_sound_table(block, e, 0);
    }
}

/// A table with a faulty table inside is faulty.
pub proof fn a_fault_inside_is_a_fault(block: Block, e: Entries, i: int, inner: Block)
    requires
        0 <= i < e.len(),
        kind_of(block, e[i].0) == Some(Kind::Block(inner)),
        e[i].1 is Table,
        table_fault(inner, e[i].1->Table_0, 0) is Some,
    ensures
        table_fault(block, e, 0) is Some,
{
    if table_fault(block, e, 0) is None {
        a_sound_table(block, e, 0);
    }
}

/// One faulty route refuses the whole document.
pub proof fn a_faulty_route_refuses_the_document(e: Entries, i: int)
    requires
        0 <= i < route_tables(e).len(),
        route_tables(e)[i] is Table,
        table_fault(Block::Route, route_tables(e)[i]->Table_0, 0) is Some,
    ensures
        table_fault(Block::File, e, 0) is Some,
{
    if table_fault(Block::File, e, 0) is None {
        a_sound_value(Block::File, e, "route"@);
        a_sound_list(route_tables(e), 0);
    }
}

/// Tables other than `[[route]]` may stand in the document: they are not looked at.
pub proof fn other_tables_are_ignored(e: Entries, key: Seq<char>, d: Doc)
    requires
        key != "route"@,
    ensures
        table_fault(Block::File, e.push((key, d)), 0) == table_fault(Block::File, e, 0),
        route_tables(e.push((key, d))) == route_tables(e),
{
    other_tables_from(e, key, d, 0);
    lookup_past_the_end(e, key, d);
}

proof fn other_tables_from(e: Entries, key: Seq<char>, d: Doc, i: int)
    requires
        0 <= i <= e.len(),
        key != "route"@,
    ensures
        table_fault(Block::File, e.push((key, d)), i) == table_fault(Block::File, e, i),
    decreases e.len() - i,
{
    let f = e.push((key, d));
    if i < e.len() {
        assert(f[i] == e[i]);
        other_tables_from(e, key, d, i + 1);
    } else {
        assert(f[i] == (key, d));
        assert(value_fault(Block::File, key, Kind::Anything, d) is None);
        assert(missing_from(Block::File, f, 0) is None);
        assert(table_fault(Block::File, f, i + 1) is None);
        assert(table_fault(Block::File, f, i) is None);
        assert(missing_from(Block::File, e, 0) is None);
    }
}

proof fn lookup_past_the_end(e: Entries, key: Seq<char>, d: Doc)
    requires
        key != "route"@,
    ensures
        lookup(e.push((key, d)), "route"@) == lookup(e, "route"@),
    decreases e.len(),
{
    let f = e.push((key, d));
    if e.len() == 0 {
        assert(f.drop_first() =~= seq![]);
        reveal_with_fuel(lookup, 2);
    } else {
        assert(f.drop_first() =~= e.drop_first().push((key, d)));
        lookup_past_the_end(e.drop_first(), key, d);
    }
}

// ---- Where each value goes ----

/// The `q`th entry of the table is the first under `key`.
pub open spec fn stands(e: Entries, key: Seq<char>, q: int) -> bool {
    &&& 0 <= q < e.len()
    &&& e[q].0 == key
    &&& forall|k: int| 0 <= k < q ==> (#[trigger] e[k]).0 != key
}

/// No entry of the table is under `key`.
pub open spec fn lacks(e: Entries, key: Seq<char>) -> bool {
    forall|k: int| 0 <= k < e.len() ==> (#[trigger] e[k]).0 != key
}

/// What stands first under a key is found there.
pub proof fn the_first_entry_is_found(e: Entries, key: Seq<char>, q: int)
    requires
        stands(e, key, q),
    ensures
        lookup(e, key) == Some(e[q].1),
    decreases q,
{
    if q > 0 {
        assert(e[0].0 != key);
        let rest = e.drop_first();
        assert forall|k: int| 0 <= k < q - 1 implies (#[trigger] rest[k]).0 != key by {
            assert(rest[k] == e[k + 1]);
        }
        the_first_entry_is_found(rest, key, q - 1);
    }
}

/// What stands nowhere is not found.
pub proof fn a_missing_entry_is_not_found(e: Entries, key: Seq<char>)
    requires
        lacks(e, key),
    ensures
        lookup(e, key) is None,
    decreases e.len(),
{
    if e.len() > 0 {
        let rest = e.drop_first();
        assert(e[0].0 != key);
        assert forall|k: int| 0 <= k < rest.len() implies (#[trigger] rest[k]).0 != key by {
            assert(rest[k] == e[k + 1]);
        }
        a_missing_entry_is_not_found(rest, key);
    }
}

/// The routes of a sound document, and the table of each.
pub proof fn each_route_is_its_table(routes: Seq<RawRoute>, e: Entries, p: int, v: Seq<Doc>, i: int)
    requires
        table_fault(Block::File, e, 0) is None,
        are_routes(routes, e),
        stands(e, "route"@, p),
        e[p].1 == Doc::Items(v),
        0 <= i < v.len(),
    ensures
        routes.len() == v.len(),
        v[i] is Table,
        table_fault(Block::Route, v[i]->Table_0, 0) is None,
        is_route(routes[i], v[i]->Table_0),
{
    the_first_entry_is_found(e, "route"@, p);
    a_sound_value(Block::File, e, "route"@);
    a_sound_list(v, 0);
    assert(route_tables(e) == v);
    assert(is_route(routes[i], entries_of(route_tables(e)[i])));
}

/// A table of a sound table is sound.
pub proof fn an_inner_table_is_sound(
    block: Block,
    e: Entries,
    key: Seq<char>,
    q: int,
    inner: Block,
)
    requires
        table_fault(block, e, 0) is None,
        stands(e, key, q),
        kind_of(block, key) == Some(Kind::Block(inner)),
    ensures
        e[q].1 is Table,
        table_fault(inner, e[q].1->Table_0, 0) is None,
        table_at(e, key) == e[q].1->Table_0,
{
    the_first_entry_is_found(e, key, q);
    a_sound_value(block, e, key);
}

/// In a sound table, a value fits the kind of its key.
pub proof fn an_entry_fits(block: Block, e: Entries, q: int)
    requires
        table_fault(block, e, 0) is None,
        0 <= q < e.len(),
    ensures
        kind_of(block, e[q].0) is Some,
        value_fault(block, e[q].0, kind_of(block, e[q].0)->0, e[q].1) is None,
{
    a_sound_table(block, e, 0);
}

/// The message of an error names the key and the table that it is about.
pub proof fn an_error_names_its_key(e: &TomlError<String>, r: String)
    requires
        call_ensures(TomlError::<String>::to_string, (e,), r),
    ensures
        *e is Syntax ==> r@ == e->Syntax_0@,
        *e is UnknownKey ==> r@ == "unknown field `"@ + e->UnknownKey_key@ + "` in "@ + name_of(
            e->UnknownKey_block,
        ),
        *e is MissingKey ==> r@ == "missing field `"@ + e->MissingKey_key@ + "` in "@ + name_of(
            e->MissingKey_block,
        ),
        *e is WrongType ==> r@ == "invalid type for `"@ + e->WrongType_key@ + "` in "@ + name_of(
            e->WrongType_block,
        ),
        name_of(Block::File) == "the document"@,
        name_of(Block::Route) == "[[route]]"@,
        name_of(Block::Match) == "[route.match]"@,
        name_of(Block::Header) == "[route.match.header]"@,
        name_of(Block::Bridge) == "[route.bridge]"@,
        name_of(Block::BargeIn) == "[route.bridge.barge_in]"@,
        name_of(Block::Tls) == "[route.bridge.tls]"@,
        name_of(Block::Media) == "[route.media]"@,
        name_of(Block::Security) == "[route.security]"@,
        name_of(Block::Recording) == "[route.recording]"@,
{
}

} // verus!
