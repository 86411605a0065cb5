//! Log-filter directives and the `warn` floor.
//!
//! A directive that names only targets mutes every crate nobody named. The floor
//! keeps such a filter fail-safe: unless the directive carries a global level of
//! its own, `warn` is put in front of it.
use vstd::prelude::*;

use tracing_subscriber::EnvFilter;

use crate::text::{
    chars_of, concat3, debug_form, debug_quoted, find_indent, find_next, indent, lower, next_of,
    next_of_fits, one_piece, pieces, pieces_are_separate, split, str_eq, to_ascii_lowercase, trim,
    trim_start_of, trimmed, trimmed_has_no_outer_space, trimmed_is_inner, views,
};

verus! {

/// The global level put in front of a directive that has none.
pub const LOG_FLOOR: &'static str = "warn";

/// A level name, in lower case.
pub open spec fn is_level_name(s: Seq<char>) -> bool {
    ||| s == "off"@
    ||| s == "error"@
    ||| s == "warn"@
    ||| s == "info"@
    ||| s == "debug"@
    ||| s == "trace"@
}

/// One directive of a list is a bare level, in any case.
pub open spec fn is_bare_level(piece: Seq<char>) -> bool {
    is_level_name(lower(trimmed(piece)))
}

/// Some directive of the comma-separated list is a bare level.
pub open spec fn global_level(directive: Seq<char>) -> bool {
    exists|i: int|
        0 <= i < pieces(directive, ',').len() && is_bare_level(#[trigger] pieces(directive, ',')[i])
}

/// The directive that takes effect once the floor is enforced.
pub open spec fn floored(directive: Seq<char>) -> Seq<char> {
    let t = trimmed(directive);
    if t.len() == 0 {
        LOG_FLOOR@
    } else if global_level(t) {
        t
    } else {
        LOG_FLOOR@ + ","@ + t
    }
}

fn bare_level(piece: &str) -> (r: bool)
    ensures
        r == is_bare_level(piece@),
{
    let l = to_ascii_lowercase(trim(piece));
    let s = l.as_str();
    str_eq(s, "off") || str_eq(s, "error") || str_eq(s, "warn") || str_eq(s, "info") || str_eq(
        s,
        "debug",
    ) || str_eq(s, "trace")
}

/// Whether `directive` carries a **global** level: a bare level token, in any case,
/// anywhere in the comma-separated list. Every other shape (`target=level`,
/// `target[span]=level`) is scoped and leaves unnamed targets muted.
pub fn has_global_level(directive: &str) -> (r: bool)
    ensures
        r == global_level(directive@),
{
    let parts = split(directive, ',');
    let ghost all = pieces(directive@, ',');
    let mut i: usize = 0;
    while i < parts.len()
        invariant
            i <= parts@.len(),
            views(parts@) == all,
            all == pieces(directive@, ','),
            forall|k: int| 0 <= k < i ==> !is_bare_level(#[trigger] all[k]),
        decreases parts@.len() - i,
    {
        assert(views(parts@)[i as int] == parts@[i as int]@);
        if bare_level(parts[i].as_str()) {
            assert(is_bare_level(pieces(directive@, ',')[i as int]));
            return true;
        }
        i += 1;
    }
    assert(views(parts@).len() == parts@.len());
    false
}

/// Put the floor in front of `directive` unless it carries a global level. Returns
/// the effective directive and whether the floor was added.
pub fn with_floor(directive: &str) -> (r: (String, bool))
    ensures
        r.0@ == floored(directive@),
        r.1 == (trimmed(directive@).len() == 0 || !global_level(trimmed(directive@))),
{
    let t = trim(directive);
    if t.is_empty() {
        return (LOG_FLOOR.to_owned(), true);
    }
    if has_global_level(t) {
        (t.to_owned(), false)
    } else {
        (concat3(LOG_FLOOR, ",", t), true)
    }
}

/// Why a filter change failed.
#[derive(Debug)]
pub enum LogFilterError {
    /// The directive is no valid filter: the caller's error.
    Parse { directive: String, err: String },
    /// The subscriber could not be reloaded.
    Reload(String),
}

impl LogFilterError {
    pub open spec fn message(self) -> Seq<char> {
        match self {
            LogFilterError::Parse { directive, err } => "invalid log directive "@ + debug_form(
                directive@,
            ) + ": "@ + err@,
            LogFilterError::Reload(e) => "filter reload failed: "@ + e@,
        }
    }

    /// The message, as operators see it.
    pub fn to_string(&self) -> (r: String)
        ensures
            r@ == self.message(),
    {
        match self {
            LogFilterError::Parse { directive, err } => {
                let quoted = debug_quoted(directive.as_str());
                let mut r = concat3("invalid log directive ", quoted.as_str(), ": ");
                r.push_str(err.as_str());
                r
            },
            LogFilterError::Reload(e) => crate::text::concat("filter reload failed: ", e.as_str()),
        }
    }
}

/// Why a directive is refused whose white space shifts its parts into a character.
pub const MISPLACED_SPACE: &'static str = "white space before a directive that is not ASCII";

/// The parser counts bytes in the trimmed piece and cuts the piece as given: this
/// cut, at character `k` of the trimmed piece, does not fall inside a character.
pub open spec fn cuts_cleanly(piece: Seq<char>, k: int) -> bool {
    vstd::utf8::is_char_boundary(
        vstd::utf8::encode_utf8(piece),
        vstd::utf8::encode_utf8(trimmed(piece).subrange(0, k)).len() as int,
    )
}

/// The cuts around the fields that start at `from`.
pub open spec fn fields_readable(piece: Seq<char>, from: int) -> bool {
    let t = trimmed(piece);
    let end = next_of(t, from, '}', '}');
    end < t.len() ==> cuts_cleanly(piece, from) && cuts_cleanly(piece, end)
}

/// The cuts around the span whose name starts at `from`, and around its fields.
pub open spec fn span_readable(piece: Seq<char>, from: int) -> bool {
    let t = trimmed(piece);
    let end = next_of(t, from, ']', '{');
    end < t.len() ==> {
        &&& cuts_cleanly(piece, from)
        &&& cuts_cleanly(piece, end)
        &&& t[end] == '{' ==> fields_readable(piece, end + 1)
    }
}

/// The cuts around the target of a directive, its span and its fields.
pub open spec fn scope_readable(piece: Seq<char>) -> bool {
    let t = trimmed(piece);
    let end = next_of(t, 0, '=', '[');
    end < t.len() ==> {
        &&& end > 0 ==> cuts_cleanly(piece, end)
        &&& t[end] == '[' ==> span_readable(piece, end + 1)
    }
}

/// Where the span that opens at `open` closes, fields included; the length when it
/// does not.
pub open spec fn span_close(t: Seq<char>, open: int) -> int {
    let end = next_of(t, open + 1, ']', '{');
    if end < t.len() && t[end] == '{' {
        let fields_end = next_of(t, end + 1, '}', '}');
        if fields_end + 1 < t.len() && t[fields_end + 1] == ']' {
            fields_end + 1
        } else {
            t.len() as int
        }
    } else {
        end
    }
}

/// Where the `=` before the level stands in a trimmed directive; the length when
/// there is none.
pub open spec fn level_sign(t: Seq<char>) -> int {
    let end = next_of(t, 0, '=', '[');
    if end < t.len() && t[end] == '[' {
        let close = span_close(t, end);
        if close + 1 < t.len() && t[close + 1] == '=' {
            close + 1
        } else {
            t.len() as int
        }
    } else {
        end
    }
}

/// A directive of a list that the parser can take apart: each place it cuts at,
/// until it is through or finds an error, lies between two characters. Only white
/// space in front can shift a place into a character.
pub open spec fn piece_readable(piece: Seq<char>) -> bool
    decreases piece.len(),
    via piece_readable_decreases
{
    let t = trimmed(piece);
    let sign = level_sign(t);
    ||| indent(piece) == 0
    ||| t.len() > 0 && t[0] != '[' && env_filter_of(t.subrange(0, 1)) is Err
    ||| {
        &&& scope_readable(piece)
        &&& sign < t.len() ==> {
            let scope = piece.subrange(0, indent(piece) + sign);
            ||| cuts_cleanly(piece, sign + 1)
            ||| piece_readable(scope) && env_filter_of(scope) is Err
        }
    }
}

#[via_fn]
proof fn piece_readable_decreases(piece: Seq<char>) {
    trimmed_is_inner(piece);
    level_sign_fits(trimmed(piece));
}

/// A directive of a list that the parser takes apart and refuses.
pub open spec fn piece_refused(piece: Seq<char>) -> bool {
    piece_readable(piece) && env_filter_of(piece) is Err
}

/// The parser can take the comma-separated list apart: every directive of it, or
/// every one up to one that it refuses.
pub open spec fn readable(directive: Seq<char>) -> bool {
    forall|i: int|
        0 <= i < pieces(directive, ',').len() ==> piece_readable(
            #[trigger] pieces(directive, ',')[i],
        ) || refused_before(directive, i)
}

/// One of the first `n` directives of the list is refused.
pub open spec fn refused_before(directive: Seq<char>, n: int) -> bool {
    exists|j: int| 0 <= j < n && piece_refused(#[trigger] pieces(directive, ',')[j])
}

proof fn level_sign_fits(t: Seq<char>)
    ensures
        0 <= level_sign(t) <= t.len(),
{
    next_of_fits(t, 0, '=', '[');
    let end = next_of(t, 0, '=', '[');
    if end < t.len() && t[end] == '[' {
        next_of_fits(t, end + 1, ']', '{');
        let close = next_of(t, end + 1, ']', '{');
        if close < t.len() {
            next_of_fits(t, close + 1, '}', '}');
        }
    }
}

fn is_clean_cut(piece: &str, t: &str, k: usize) -> (r: bool)
    requires
        t@ == trimmed(piece@),
        k <= t@.len(),
    ensures
        r == cuts_cleanly(piece@, k as int),
{
    piece.is_char_boundary(t.substring_char(0, k).as_bytes().len())
}

fn is_scope_readable(piece: &str, t: &str, v: &Vec<char>) -> (r: bool)
    requires
        t@ == trimmed(piece@),
        v@ == t@,
    ensures
        r == scope_readable(piece@),
{
    let end = find_next(v, 0, '=', '[');
    if end >= v.len() {
        return true;
    }
    if end > 0 && !is_clean_cut(piece, t, end) {
        return false;
    }
    if v[end] != '[' {
        return true;
    }
    let close = find_next(v, end + 1, ']', '{');
    if close >= v.len() {
        return true;
    }
    if !is_clean_cut(piece, t, end + 1) || !is_clean_cut(piece, t, close) {
        return false;
    }
    if v[close] != '{' {
        return true;
    }
    let fields_end = find_next(v, close + 1, '}', '}');
    fields_end >= v.len() || (is_clean_cut(piece, t, close + 1) && is_clean_cut(
        piece,
        t,
        fields_end,
    ))
}

fn find_level_sign(v: &Vec<char>) -> (r: usize)
    ensures
        r == level_sign(v@),
{
    let n = v.len();
    let end = find_next(v, 0, '=', '[');
    if end >= n || v[end] != '[' {
        return end;
    }
    let close = find_next(v, end + 1, ']', '{');
    if close >= n {
        return n;
    }
    let last = if v[close] == '{' {
        let fields_end = find_next(v, close + 1, '}', '}');
        if fields_end < n && fields_end + 1 < n && v[fields_end + 1] == ']' {
            fields_end + 1
        } else {
            n
        }
    } else {
        close
    };
    if last < n && last + 1 < n && v[last + 1] == '=' {
        last + 1
    } else {
        n
    }
}

fn is_piece_readable(piece: &str) -> (r: bool)
    requires
        !piece@.contains(','),
    ensures
        r == piece_readable(piece@),
    decreases piece@.len(),
{
    let all = chars_of(piece);
    let lead = find_indent(&all);
    if lead == 0 {
        return true;
    }
    let t = trim(piece);
    let v = chars_of(t);
    proof {
        trimmed_is_inner(piece@);
        level_sign_fits(t@);
    }
    if v.len() > 0 && v[0] != '[' {
        let start = t.substring_char(0, 1);
        proof {
            assert(start@[0] == t@[0]);
            assert(!start@.contains(','));
            one_piece(start@, ',');
            trimmed_has_no_outer_space(piece@);
            assert(trim_start_of(start@) == start@);
            assert(piece_readable(start@));
            assert(pieces(start@, ',')[0] == start@);
        }
        if parse_env_filter(start).is_err() {
            return true;
        }
    }
    if !is_scope_readable(piece, t, &v) {
        return false;
    }
    let sign = find_level_sign(&v);
    if sign >= v.len() || is_clean_cut(piece, t, sign + 1) {
        return true;
    }
    assert(lead + sign <= all.len());
    let scope = piece.substring_char(0, lead + sign);
    assert(!scope@.contains(','));
    if !is_piece_readable(scope) {
        return false;
    }
    proof {
        one_piece(scope@, ',');
        assert(pieces(scope@, ',')[0] == scope@);
    }
    parse_env_filter(scope).is_err()
}

fn is_readable(directive: &str) -> (r: bool)
    ensures
        r == readable(directive@),
{
    let parts = split(directive, ',');
    let ghost all = pieces(directive@, ',');
    let mut i: usize = 0;
    while i < parts.len()
        invariant
            i <= parts@.len(),
            views(parts@) == all,
            all == pieces(directive@, ','),
            forall|k: int| 0 <= k < i ==> piece_readable(#[trigger] all[k]),
        decreases parts@.len() - i,
    {
        assert(views(parts@)[i as int] == parts@[i as int]@);
        proof {
            pieces_are_separate(directive@, ',', i as int);
        }
        if !is_piece_readable(parts[i].as_str()) {
            let r = is_refused_before(&parts, i, directive);
            assert(!piece_readable(all[i as int]));
            assert(r ==> readable(directive@)) by {
                if r {
                    let j = choose|j: int| 0 <= j < i && piece_refused(#[trigger] all[j]);
                    assert forall|k: int| 0 <= k < all.len() implies piece_readable(
                        #[trigger] all[k],
                    ) || refused_before(directive@, k) by {
                        if k >= i {
                            assert(piece_refused(pieces(directive@, ',')[j]));
                        }
                    }
                }
            }
            return r;
        }
        i += 1;
    }
    assert(views(parts@).len() == parts@.len());
    true
}

fn is_refused_before(parts: &Vec<String>, n: usize, directive: &str) -> (r: bool)
    requires
        n <= parts@.len(),
        views(parts@) == pieces(directive@, ','),
        forall|k: int| 0 <= k < n ==> piece_readable(#[trigger] pieces(directive@, ',')[k]),
    ensures
        r == refused_before(directive@, n as int),
{
    let ghost all = pieces(directive@, ',');
    let mut j: usize = 0;
    while j < n
        invariant
            j <= n <= parts@.len(),
            views(parts@) == all,
            all == pieces(directive@, ','),
            forall|k: int| 0 <= k < n ==> piece_readable(#[trigger] all[k]),
            forall|k: int| 0 <= k < j ==> !piece_refused(#[trigger] all[k]),
        decreases n - j,
    {
        assert(views(parts@)[j as int] == parts@[j as int]@);
        let part = parts[j].as_str();
        proof {
            assert(piece_readable(all[j as int]));
            pieces_are_separate(directive@, ',', j as int);
            one_piece(part@, ',');
            assert(pieces(part@, ',')[0] == part@);
        }
        if parse_env_filter(part).is_err() {
            assert(piece_refused(pieces(directive@, ',')[j as int]));
            return true;
        }
        j += 1;
    }
    false
}

/// What `EnvFilter` makes of a directive: its canonical text, or the parse error.
pub uninterp spec fn env_filter_of(directive: Seq<char>) -> Result<Seq<char>, Seq<char>>;

/// `tracing_subscriber`'s `EnvFilter::try_new`, and the `Display` of the filter or
/// of the error. The directive grammar is not spelled out: only that the outcome
/// depends on the directive alone. The parser takes the directives of the list in
/// turn and stops at the first that it refuses. It slices each by byte positions of
/// the trimmed one, which panics inside a character: such lists are left out.
#[verifier::external_body]
fn parse_env_filter(directive: &str) -> (r: Result<String, String>)
    requires
        readable(directive@),
    ensures
        crate::telemetry::admin::result_view(r) == env_filter_of(directive@),
{
    match EnvFilter::try_new(directive) {
        Ok(f) => Ok(f.to_string()),
        Err(e) => Err(e.to_string()),
    }
}

/// The runtime log filter: the filter in force, and whether changes are floored.
#[derive(Debug)]
pub struct LogFilterHandle {
    current: String,
    enforce_floor: bool,
}

impl LogFilterHandle {
    /// The filter in force.
    pub closed spec fn in_force(self) -> Seq<char> {
        self.current@
    }

    pub closed spec fn floor_on(self) -> bool {
        self.enforce_floor
    }

    /// What a change to `directive` asks the filter to be.
    pub open spec fn effective(self, directive: Seq<char>) -> Seq<char> {
        if self.floor_on() {
            floored(directive)
        } else {
            trimmed(directive)
        }
    }

    /// What a change to `directive` gives: the canonical text of the filter, or why
    /// there is none.
    pub open spec fn outcome(self, directive: Seq<char>) -> Result<Seq<char>, Seq<char>> {
        if readable(self.effective(directive)) {
            env_filter_of(self.effective(directive))
        } else {
            Err(MISPLACED_SPACE@)
        }
    }

    /// A handle on a subscriber whose filter prints as `current`.
    pub fn new(current: String) -> (r: Self)
        ensures
            r.in_force() == current@,
            r.floor_on(),
    {
        LogFilterHandle { current, enforce_floor: true }
    }

    /// A handle on no subscriber at all, for tests; its filter is `off`.
    pub fn noop() -> (r: Self)
        ensures
            r.in_force() == "off"@,
            r.floor_on(),
    {
        LogFilterHandle::new("off".to_owned())
    }

    /// Whether changes get the floor.
    pub fn with_enforce_floor(self, enforce: bool) -> (r: Self)
        ensures
            r.in_force() == self.in_force(),
            r.floor_on() == enforce,
    {
        LogFilterHandle { current: self.current, enforce_floor: enforce }
    }

    pub fn enforces_floor(&self) -> (r: bool)
        ensures
            r == self.floor_on(),
    {
        self.enforce_floor
    }

    /// The filter in force.
    pub fn current(&self) -> (r: String)
        ensures
            r@ == self.in_force(),
    {
        self.current.clone()
    }

    /// Change the filter. Returns the previous one, or the error when the directive
    /// does not parse; the filter is then unchanged.
    pub fn set(&mut self, directive: &str) -> (r: Result<String, LogFilterError>)
        ensures
            final(self).floor_on() == old(self).floor_on(),
            match old(self).outcome(directive@) {
                Ok(canonical) => {
                    &&& r is Ok
                    &&& r->Ok_0@ == old(self).in_force()
                    &&& final(self).in_force() == canonical
                },
                Err(err) => {
                    &&& r is Err
                    &&& r->Err_0 is Parse
                    &&& r->Err_0->directive@ == directive@
                    &&& r->Err_0->err@ == err
                    &&& final(self).in_force() == old(self).in_force()
                },
            },
    {
        match self.set_effective(directive) {
            Ok((previous, _)) => Ok(previous),
            Err(e) => Err(e),
        }
    }

    /// [`set`](Self::set), also returning the directive that was installed.
    pub fn set_effective(&mut self, directive: &str) -> (r: Result<
        (String, String),
        LogFilterError,
    >)
        ensures
            final(self).floor_on() == old(self).floor_on(),
            match old(self).outcome(directive@) {
                Ok(canonical) => {
                    &&& r is Ok
                    &&& r->Ok_0.0@ == old(self).in_force()
                    &&& r->Ok_0.1@ == old(self).effective(directive@)
                    &&& final(self).in_force() == canonical
                },
                Err(err) => {
                    &&& r is Err
                    &&& r->Err_0 is Parse
                    &&& r->Err_0->directive@ == directive@
                    &&& r->Err_0->err@ == err
                    &&& final(self).in_force() == old(self).in_force()
                },
            },
    {
        let effective = if self.enforce_floor {
            with_floor(directive).0
        } else {
            trim(directive).to_owned()
        };
        let parsed = if is_readable(effective.as_str()) {
            parse_env_filter(effective.as_str())
        } else {
            Err(MISPLACED_SPACE.to_owned())
        };
        match self.install(directive, parsed) {
            Ok(previous) => Ok((previous, effective)),
            Err(e) => Err(e),
        }
    }

    /// Install what parsing the effective directive gave.
    pub fn install(&mut self, directive: &str, parsed: Result<String, String>) -> (r: Result<
        String,
        LogFilterError,
    >)
        ensures
            final(self).floor_on() == old(self).floor_on(),
            match parsed {
                Ok(canonical) => {
                    &&& r is Ok
                    &&& r->Ok_0@ == old(self).in_force()
                    &&& final(self).in_force() == canonical@
                },
                Err(err) => {
                    &&& r is Err
                    &&& r->Err_0 is Parse
                    &&& r->Err_0->directive@ == directive@
                    &&& r->Err_0->err@ == err@
                    &&& final(self).in_force() == old(self).in_force()
                },
            },
    {
        match parsed {
            Ok(canonical) => {
                let previous = self.current.clone();
                self.current = canonical;
                Ok(previous)
            },
            Err(err) => Err(LogFilterError::Parse { directive: directive.to_owned(), err }),
        }
    }
}

// ---- Laws ----

/// A floored directive always carries a global level: no filter can mute unnamed
/// crates by accident.
pub proof fn the_floor_always_holds(directive: Seq<char>)
    ensures
        global_level(floored(directive)),
{
    let t = trimmed(directive);
    reveal_strlit("warn");
    reveal_strlit(",");
    assert(trimmed("warn"@) == "warn"@) by {
        reveal_with_fuel(crate::text::trim_start_of, 2);
        reveal_with_fuel(crate::text::trim_end_of, 2);
    }
    assert(lower("warn"@) =~= "warn"@);
    assert(is_bare_level("warn"@));
    if t.len() == 0 {
        crate::text::first_index_is_first("warn"@, ',');
        assert(pieces("warn"@, ',')[0] == "warn"@);
    } else if !global_level(t) {
        let all = LOG_FLOOR@ + ","@ + t;
        crate::text::first_index_is_first(all, ',');
        assert(all[4] == ',');
        assert(all[0] == 'w' && all[1] == 'a' && all[2] == 'r' && all[3] == 'n');
        let i = crate::text::first_index(all, ',');
        assert(i == 4);
        assert(all.subrange(0, 4) =~= "warn"@);
        assert(pieces(all, ',')[0] == "warn"@);
    }
}

/// A directive has a global level exactly when one of its comma-separated parts is, but for
/// white space and case, the name of a level and nothing else.
pub proof fn a_bare_level_is_global(directive: &str, r: bool, i: int)
    requires
        call_ensures(has_global_level, (directive,), r),
    ensures
        0 <= i < pieces(directive@, ',').len() && ({
            let word = lower(trimmed(pieces(directive@, ',')[i]));
            word == "off"@ || word == "error"@ || word == "warn"@ || word == "info"@ || word
                == "debug"@ || word == "trace"@
        }) ==> r,
        r ==> exists|k: int|
            0 <= k < pieces(directive@, ',').len() && ({
                let word = lower(trimmed(#[trigger] pieces(directive@, ',')[k]));
                word == "off"@ || word == "error"@ || word == "warn"@ || word == "info"@ || word
                    == "debug"@ || word == "trace"@
            }),
{
    if r {
        let k = choose|k: int|
            0 <= k < pieces(directive@, ',').len() && is_bare_level(
                #[trigger] pieces(directive@, ',')[k],
            );
        assert(is_bare_level(pieces(directive@, ',')[k]));
    }
    if 0 <= i < pieces(directive@, ',').len() {
        let piece = pieces(directive@, ',')[i];
        assert(is_bare_level(piece) ==> global_level(directive@));
    }
}

/// With the floor every directive has a global level: its own, and then it stands as it is
/// but for outer white space, or `warn`, put in front of it or in place of an empty one.
pub proof fn the_floor_gives_a_global_level(
    directive: &str,
    r: (String, bool),
    inner: &str,
    own: bool,
    effective: &str,
    global: bool,
)
    requires
        call_ensures(with_floor, (directive,), r),
        inner@ == trimmed(directive@),
        call_ensures(has_global_level, (inner,), own),
        effective@ == r.0@,
        call_ensures(has_global_level, (effective,), global),
    ensures
        global,
        inner@.len() == 0 ==> r.0@ == "warn"@ && r.1,
        inner@.len() > 0 && own ==> r.0@ == inner@ && !r.1,
        inner@.len() > 0 && !own ==> r.0@ == "warn"@ + ","@ + inner@ && r.1,
{
    the_floor_always_holds(directive@);
}

/// A directive that the subscriber's parser takes is in force from then on, in the form
/// that the parser gives it and with the floor where that is kept, and the filter before it
/// is handed back; one that it refuses changes nothing.
pub proof fn a_filter_changes_to_what_was_parsed(
    h: &mut LogFilterHandle,
    directive: &str,
    r: Result<String, LogFilterError>,
    before: LogFilterHandle,
    was: String,
    after: LogFilterHandle,
    is: String,
    floor: bool,
    still: bool,
    floored_text: (String, bool),
)
    requires
        call_ensures(LogFilterHandle::set, (h, directive), r),
        before == *old(h),
        after == *final(h),
        call_ensures(LogFilterHandle::current, (&before,), was),
        call_ensures(LogFilterHandle::current, (&after,), is),
        call_ensures(LogFilterHandle::enforces_floor, (&before,), floor),
        call_ensures(LogFilterHandle::enforces_floor, (&after,), still),
        call_ensures(with_floor, (directive,), floored_text),
    ensures
        still == floor,
        ({
            let asked = if floor {
                floored_text.0@
            } else {
                trimmed(directive@)
            };
            &&& readable(asked) ==> (r is Ok <==> env_filter_of(asked) is Ok)
            &&& !readable(asked) ==> r is Err
            &&& r is Ok ==> is@ == env_filter_of(asked)->Ok_0
        }),
        r is Ok ==> r->Ok_0@ == was@,
        r is Err ==> is@ == was@,
        r is Err ==> r->Err_0 is Parse && r->Err_0->directive@ == directive@,
{
}

/// A handle starts with the filter it is given and keeps the floor until told otherwise.
pub proof fn a_handle_keeps_the_floor_until_told(
    text: String,
    h: LogFilterHandle,
    keeps: bool,
    shown: String,
    enforce: bool,
    told: LogFilterHandle,
    kept: bool,
    still: String,
)
    requires
        call_ensures(LogFilterHandle::new, (text,), h),
        call_ensures(LogFilterHandle::enforces_floor, (&h,), keeps),
        call_ensures(LogFilterHandle::current, (&h,), shown),
        call_ensures(LogFilterHandle::with_enforce_floor, (h, enforce), told),
        call_ensures(LogFilterHandle::enforces_floor, (&told,), kept),
        call_ensures(LogFilterHandle::current, (&told,), still),
    ensures
        keeps,
        shown@ == text@,
        kept == enforce,
        still@ == text@,
{
}

/// A change that tells the directive it installed is the same change, and the directive is
/// the one with the floor where that is kept.
pub proof fn an_installed_directive_is_told(
    h: &mut LogFilterHandle,
    directive: &str,
    r: Result<(String, String), LogFilterError>,
    twin: &mut LogFilterHandle,
    s: Result<String, LogFilterError>,
    before: LogFilterHandle,
    floor: bool,
    floored_text: (String, bool),
)
    requires
        call_ensures(LogFilterHandle::set_effective, (h, directive), r),
        *old(twin) == *old(h),
        call_ensures(LogFilterHandle::set, (twin, directive), s),
        before == *old(h),
        call_ensures(LogFilterHandle::enforces_floor, (&before,), floor),
        call_ensures(with_floor, (directive,), floored_text),
    ensures
        r is Ok <==> s is Ok,
        final(h).in_force() == final(twin).in_force(),
        r is Ok ==> r->Ok_0.0@ == s->Ok_0@,
        r is Ok && floor ==> r->Ok_0.1@ == floored_text.0@,
        r is Ok && !floor ==> r->Ok_0.1@ == trimmed(directive@),
{
}

/// What was parsed is installed and the filter before it handed back; a failure changes
/// nothing and is told with the directive.
pub proof fn what_was_parsed_is_installed(
    h: &mut LogFilterHandle,
    directive: &str,
    parsed: Result<String, String>,
    r: Result<String, LogFilterError>,
)
    requires
        call_ensures(LogFilterHandle::install, (h, directive, parsed), r),
    ensures
        r is Ok <==> parsed is Ok,
        parsed is Ok ==> final(h).in_force() == parsed->Ok_0@ && r->Ok_0@ == old(h).in_force(),
        parsed is Err ==> final(h).in_force() == old(h).in_force() && r->Err_0 is Parse
            && r->Err_0->directive@ == directive@ && r->Err_0->err@ == parsed->Err_0@,
{
}

} // verus!
