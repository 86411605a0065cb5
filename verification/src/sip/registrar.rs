//! The daemon's own registrar: which connection each registration came over, and
//! what becomes of it when that connection dies.
//!
//! The REGISTER protocol, its digest and the location store are the SIP stack's.
//! What the stack answered, what it still stores and which connections have
//! closed come in as plain values. A connection is known by its number. Times are
//! milliseconds on one clock.
use vstd::prelude::*;

use crate::text::{concat3, debug_form, debug_quoted, str_eq, views};

verus! {

/// How long a registration outlives its connection.
pub const DISCONNECT_GRACE: u64 = 32_000;

/// How often the registrations are swept.
pub const SWEEP_INTERVAL: u64 = 5_000;

/// The settings of the registrar, in milliseconds.
pub struct RegistrarSettings {
    pub default_expires: u64,
    pub min_expires: u64,
    pub max_expires: u64,
    /// Credentials; `None` where anybody may register.
    pub auth: Option<RegistrarAuth>,
}

/// What clients authenticate with.
pub struct RegistrarAuth {
    pub realm: String,
    /// `MD5`, `SHA-256` or `SHA-512`.
    pub algorithm: String,
    pub users: Vec<(String, String)>,
}

/// The digest algorithms that a registration can use.
#[derive(Debug, Clone, Copy, PartialEq, Eq, Structural)]
pub enum DigestAlgorithm {
    Md5,
    Sha256,
    Sha512,
}

/// The algorithm of that name.
pub open spec fn algorithm_named(name: Seq<char>) -> Option<DigestAlgorithm> {
    if name == "MD5"@ {
        Some(DigestAlgorithm::Md5)
    } else if name == "SHA-256"@ {
        Some(DigestAlgorithm::Sha256)
    } else if name == "SHA-512"@ {
        Some(DigestAlgorithm::Sha512)
    } else {
        None
    }
}

/// The connection of one registration.
#[derive(Debug, Clone, Copy, PartialEq, Eq, Structural)]
pub struct ConnState {
    /// The connection, where the registration came over one.
    pub writer: Option<u64>,
    /// When the connection was first seen closed.
    pub dead_since: Option<u64>,
}

/// One registered address and its connection.
#[derive(Debug)]
pub struct Bound {
    pub aor: String,
    pub conn: ConnState,
}

/// The registrar's own state.
pub struct RegistrarService {
    /// The digest algorithm; `None` where anybody may register.
    pub algorithm: Option<DigestAlgorithm>,
    pub connections: Vec<Bound>,
    pub disconnect_grace: u64,
}

/// The label under which a REGISTER is counted; `None` stands for a fault of the
/// SIP stack.
pub open spec fn register_label(code: Option<u16>) -> Seq<char> {
    match code {
        None => "error"@,
        Some(c) => if c == 200 {
            "ok"@
        } else if c == 401 {
            "challenged"@
        } else if c == 403 {
            "forbidden"@
        } else if c == 423 {
            "interval_too_brief"@
        } else {
            "rejected"@
        },
    }
}

/// The label under which a REGISTER with this outcome is counted.
pub fn register_result(code: Option<u16>) -> (r: &'static str)
    ensures
        r@ == register_label(code),
{
    match code {
        None => "error",
        Some(c) => if c == 200 {
            "ok"
        } else if c == 401 {
            "challenged"
        } else if c == 403 {
            "forbidden"
        } else if c == 423 {
            "interval_too_brief"
        } else {
            "rejected"
        },
    }
}

/// The index of the address, from the `i`th on; the length when it is not bound.
pub open spec fn bound_at(c: Seq<Bound>, aor: Seq<char>, i: int) -> int
    decreases c.len() - i,
{
    if i >= c.len() || c[i].aor@ == aor {
        i
    } else {
        bound_at(c, aor, i + 1)
    }
}

fn find_bound(c: &Vec<Bound>, aor: &str) -> (i: usize)
    ensures
        i == bound_at(c@, aor@, 0),
        i <= c@.len(),
{
    let mut i: usize = 0;
    while i < c.len()
        invariant
            i <= c@.len(),
            bound_at(c@, aor@, 0) == bound_at(c@, aor@, i as int),
        decreases c@.len() - i,
    {
        if str_eq(c[i].aor.as_str(), aor) {
            return i;
        }
        i += 1;
    }
    i
}

fn has_text(list: &Vec<String>, s: &str) -> (r: bool)
    ensures
        r == views(list@).contains(s@),
{
    let mut i: usize = 0;
    while i < list.len()
        invariant
            i <= list@.len(),
            forall|k: int| 0 <= k < i ==> (#[trigger] views(list@)[k]) != s@,
        decreases list@.len() - i,
    {
        assert(views(list@)[i as int] == list@[i as int]@);
        if str_eq(list[i].as_str(), s) {
            return true;
        }
        i += 1;
    }
    false
}

fn has_number(list: &Vec<u64>, n: u64) -> (r: bool)
    ensures
        r == list@.contains(n),
{
    let mut i: usize = 0;
    while i < list.len()
        invariant
            i <= list@.len(),
            forall|k: int| 0 <= k < i ==> list@[k] != n,
        decreases list@.len() - i,
    {
        if list[i] == n {
            return true;
        }
        i += 1;
    }
    false
}

/// The bindings, each by its address.
pub open spec fn bindings(c: Seq<Bound>) -> Seq<(Seq<char>, ConnState)> {
    Seq::new(c.len(), |i: int| (c[i].aor@, c[i].conn))
}

/// What a sweep does to one registration.
pub enum Fate {
    /// It stays, with this state.
    Stays(ConnState),
    /// The SIP stack no longer stores it.
    Expired,
    /// Its connection has been closed for too long.
    Lost,
}

/// The fate of a registration in a sweep at `now`: it goes when it is no longer
/// stored, or when its connection has been seen closed for the grace period. A
/// connection that is open clears the mark.
pub open spec fn fate(
    aor: Seq<char>,
    conn: ConnState,
    stored: Seq<Seq<char>>,
    closed: Seq<u64>,
    now: u64,
    grace: u64,
) -> Fate {
    if !stored.contains(aor) {
        Fate::Expired
    } else {
        match conn.writer {
            None => Fate::Stays(conn),
            Some(w) => if closed.contains(w) {
                let dead = match conn.dead_since {
                    Some(t) => t,
                    None => now,
                };
                if now - dead >= grace || (grace == 0) {
                    Fate::Lost
                } else {
                    Fate::Stays(ConnState { writer: conn.writer, dead_since: Some(dead) })
                }
            } else {
                Fate::Stays(ConnState { writer: conn.writer, dead_since: None })
            },
        }
    }
}

/// The registrations that a sweep leaves.
pub open spec fn swept(
    c: Seq<(Seq<char>, ConnState)>,
    stored: Seq<Seq<char>>,
    closed: Seq<u64>,
    now: u64,
    grace: u64,
) -> Seq<(Seq<char>, ConnState)>
    decreases c.len(),
{
    if c.len() == 0 {
        seq![]
    } else {
        let front = swept(c.drop_last(), stored, closed, now, grace);
        match fate(c.last().0, c.last().1, stored, closed, now, grace) {
            Fate::Stays(s) => front.push((c.last().0, s)),
            _ => front,
        }
    }
}

/// The registrations whose connection is lost, in order.
pub open spec fn lost(
    c: Seq<(Seq<char>, ConnState)>,
    stored: Seq<Seq<char>>,
    closed: Seq<u64>,
    now: u64,
    grace: u64,
) -> Seq<Seq<char>>
    decreases c.len(),
{
    if c.len() == 0 {
        seq![]
    } else {
        let front = lost(c.drop_last(), stored, closed, now, grace);
        match fate(c.last().0, c.last().1, stored, closed, now, grace) {
            Fate::Lost => front.push(c.last().0),
            _ => front,
        }
    }
}

/// What a sweep did.
#[derive(Debug)]
pub struct SweepReport {
    /// How many registrations ended, by the clock or by a lost connection.
    pub expired: usize,
    /// The addresses that the SIP stack is to forget.
    pub evict: Vec<String>,
}

impl RegistrarService {
    /// A registrar with nothing registered. Of the settings only the digest
    /// algorithm can be wrong.
    pub fn new(settings: &RegistrarSettings) -> (r: Result<Self, String>)
        ensures
            match r {
                Ok(s) => {
                    &&& s.wf()
                    &&& s.connections@ == Seq::<Bound>::empty()
                    &&& s.disconnect_grace == DISCONNECT_GRACE
                    &&& match settings.auth {
                        None => s.algorithm is None,
                        Some(a) => s.algorithm is Some && s.algorithm == algorithm_named(
                            a.algorithm@,
                        ),
                    }
                },
                Err(m) => settings.auth matches Some(a) && algorithm_named(a.algorithm@) is None
                    && m@ == "[sip.auth].algorithm "@ + debug_form(a.algorithm@) + " unsupported"@,
            },
    {
        let algorithm = match &settings.auth {
            None => None,
            Some(auth) => {
                let name = auth.algorithm.as_str();
                if str_eq(name, "MD5") {
                    Some(DigestAlgorithm::Md5)
                } else if str_eq(name, "SHA-256") {
                    Some(DigestAlgorithm::Sha256)
                } else if str_eq(name, "SHA-512") {
                    Some(DigestAlgorithm::Sha512)
                } else {
                    return Err(
                        concat3(
                            "[sip.auth].algorithm ",
                            debug_quoted(name).as_str(),
                            " unsupported",
                        ),
                    );
                }
            },
        };
        Ok(
            RegistrarService {
                algorithm,
                connections: Vec::new(),
                disconnect_grace: DISCONNECT_GRACE,
            },
        )
    }

    /// With another grace period.
    pub fn with_disconnect_grace(self, grace: u64) -> (r: Self)
        ensures
            r == (RegistrarService { disconnect_grace: grace, ..self }),
    {
        RegistrarService { disconnect_grace: grace, ..self }
    }

    /// The bindings, each by its address.
    pub open spec fn view(self) -> Seq<(Seq<char>, ConnState)> {
        bindings(self.connections@)
    }

    /// Each address is bound at most once.
    pub open spec fn wf(self) -> bool {
        bound_once(self@)
    }

    /// Takes note of a REGISTER that the SIP stack answered with `code`, or failed
    /// on: the label to count it under, and `500` for a failure. After a `200` the
    /// binding of the address follows what the stack now stores.
    pub fn handle_register(
        &mut self,
        code: Option<u16>,
        aor: Option<String>,
        registered: bool,
        stream: Option<u64>,
    ) -> (r: (u16, &'static str))
        requires
            old(self).wf(),
        ensures
            final(self).wf(),
            r.0 == match code {
                Some(c) => c,
                None => 500,
            },
            r.1@ == register_label(code),
            final(self).algorithm == old(self).algorithm,
            final(self).disconnect_grace == old(self).disconnect_grace,
            final(self)@ == (match (code, aor) {
                (Some(200), Some(a)) => synced(old(self).connections@, a@, registered, stream),
                _ => old(self)@,
            }),
    {
        let label = register_result(code);
        match code {
            None => (500, label),
            Some(c) => {
                if c == 200 {
                    if let Some(a) = aor {
                        self.sync_binding(a, registered, stream);
                    }
                }
                (c, label)
            },
        }
    }

    /// Makes the binding of `aor` follow the location store: a registration or a
    /// refresh replaces it, a removal drops it.
    pub fn sync_binding(&mut self, aor: String, registered: bool, stream: Option<u64>)
        requires
            old(self).wf(),
        ensures
            final(self).wf(),
            final(self).algorithm == old(self).algorithm,
            final(self).disconnect_grace == old(self).disconnect_grace,
            final(self)@ == synced(old(self).connections@, aor@, registered, stream),
    {
        let ghost before = self.connections@;
        let i = find_bound(&self.connections, aor.as_str());
        let ghost name = aor@;
        let conn = ConnState { writer: stream, dead_since: None };
        if registered {
            if i < self.connections.len() {
                self.connections.set(i, Bound { aor, conn });
            } else {
                self.connections.push(Bound { aor, conn });
            }
        } else if i < self.connections.len() {
            let _ = self.connections.remove(i);
        }
        assert(bindings(self.connections@) =~= synced(before, name, registered, stream));
        proof {
            registering_keeps_addresses_bound_once(before, name, registered, stream);
        }
    }

    /// The connection that `aor` is bound to, where it is not among the closed
    /// ones.
    pub fn connection_for(&self, aor: &str, closed: &Vec<u64>) -> (r: Option<u64>)
        ensures
            r == ({
                let i = bound_at(self.connections@, aor@, 0);
                if i < self.connections@.len() {
                    match self.connections@[i].conn.writer {
                        Some(w) => if closed@.contains(w) {
                            None
                        } else {
                            Some(w)
                        },
                        None => None,
                    }
                } else {
                    None
                }
            }),
    {
        let i = find_bound(&self.connections, aor);
        if i >= self.connections.len() {
            return None;
        }
        match self.connections[i].conn.writer {
            Some(w) => if has_number(closed, w) {
                None
            } else {
                Some(w)
            },
            None => None,
        }
    }

    /// The addresses that are bound.
    pub fn bound_aors(&self) -> (r: Vec<String>)
        ensures
            r@.len() == self.connections@.len(),
            forall|i: int| 0 <= i < r@.len() ==> (#[trigger] r@[i]) == self.connections@[i].aor,
    {
        let mut out: Vec<String> = Vec::new();
        let mut i: usize = 0;
        while i < self.connections.len()
            invariant
                i <= self.connections@.len(),
                out@.len() == i,
                forall|k: int| 0 <= k < i ==> (#[trigger] out@[k]) == self.connections@[k].aor,
            decreases self.connections@.len() - i,
        {
            out.push(self.connections[i].aor.clone());
            i += 1;
        }
        out
    }

    /// One sweep at `now`, after the SIP stack has dropped what its clock ended and
    /// still stores `stored`, with these connections closed. A registration counts
    /// once, whether the clock or a lost connection ended it.
    pub fn sweep(&mut self, stored: &Vec<String>, closed: &Vec<u64>, now: u64) -> (r: SweepReport)
        requires
            old(self).wf(),
        ensures
            final(self).wf(),
            final(self).algorithm == old(self).algorithm,
            final(self).disconnect_grace == old(self).disconnect_grace,
            final(self)@ == swept(
                old(self)@,
                views(stored@),
                closed@,
                now,
                old(self).disconnect_grace,
            ),
            views(r.evict@) == lost(
                old(self)@,
                views(stored@),
                closed@,
                now,
                old(self).disconnect_grace,
            ),
            r.expired == old(self)@.len() - final(self)@.len(),
    {
        let grace = self.disconnect_grace;
        let ghost all = bindings(self.connections@);
        let ghost st = views(stored@);
        let mut kept: Vec<Bound> = Vec::new();
        let mut evict: Vec<String> = Vec::new();
        let n = self.connections.len();
        assert(all.subrange(0, 0) =~= seq![]);
        assert(views(evict@) =~= seq![]);
        assert(bindings(kept@) =~= seq![]);
        let mut i: usize = 0;
        while i < n
            invariant
                n == self.connections@.len(),
                i <= n,
                grace == self.disconnect_grace,
                all == bindings(self.connections@),
                st == views(stored@),
                kept@.len() <= i,
                bindings(kept@) == swept(all.subrange(0, i as int), st, closed@, now, grace),
                views(evict@) == lost(all.subrange(0, i as int), st, closed@, now, grace),
                self.disconnect_grace == old(self).disconnect_grace,
                self.algorithm == old(self).algorithm,
                self.connections == old(self).connections,
            decreases n - i,
        {
            let aor = &self.connections[i].aor;
            let conn = self.connections[i].conn;
            let ghost upto = all.subrange(0, i + 1);
            assert(upto.drop_last() =~= all.subrange(0, i as int));
            assert(upto.last() == (aor@, conn));
            let ghost kept0 = kept@;
            let ghost evict0 = evict@;
            let mut stays: Option<ConnState> = None;
            if has_text(stored, aor.as_str()) {
                match conn.writer {
                    None => {
                        stays = Some(conn);
                    },
                    Some(w) => {
                        if has_number(closed, w) {
                            let dead = match conn.dead_since {
                                Some(t) => t,
                                None => now,
                            };
                            let gone = if now >= dead {
                                now - dead
                            } else {
                                0
                            };
                            if gone >= grace {
                                evict.push(aor.clone());
                                assert(views(evict@) =~= views(evict0).push(aor@));
                            } else {
                                stays =
                                Some(ConnState { writer: conn.writer, dead_since: Some(dead) });
                            }
                        } else {
                            stays = Some(ConnState { writer: conn.writer, dead_since: None });
                        }
                    },
                }
            }
            if let Some(s) = stays {
                kept.push(Bound { aor: aor.clone(), conn: s });
                assert(bindings(kept@) =~= bindings(kept0).push((aor@, s)));
            }
            i += 1;
        }
        assert(all.subrange(0, n as int) =~= all);
        proof {
            sweeping_keeps_addresses_bound_once(all, st, closed@, now, grace);
        }
        let expired = n - kept.len();
        self.connections = kept;
        SweepReport { expired, evict }
    }
}

/// The bindings once that of `aor` follows the location store.
pub open spec fn synced(
    c: Seq<Bound>,
    aor: Seq<char>,
    registered: bool,
    stream: Option<u64>,
) -> Seq<(Seq<char>, ConnState)> {
    let i = bound_at(c, aor, 0);
    let here = (aor, ConnState { writer: stream, dead_since: None });
    if registered {
        if i < c.len() {
            bindings(c).update(i, here)
        } else {
            bindings(c).push(here)
        }
    } else if i < c.len() {
        bindings(c).remove(i)
    } else {
        bindings(c)
    }
}

// ---- What is promised of every registration ----

/// A registration that came over no connection is only ever ended by the clock.
pub proof fn without_a_connection_only_the_clock_ends_it(
    aor: Seq<char>,
    conn: ConnState,
    stored: Seq<Seq<char>>,
    closed: Seq<u64>,
    now: u64,
    grace: u64,
)
    requires
        conn.writer is None,
        stored.contains(aor),
    ensures
        fate(aor, conn, stored, closed, now, grace) == Fate::Stays(conn),
{
}

/// A registration whose connection is open stays, and an earlier mark is cleared.
pub proof fn an_open_connection_keeps_its_registration(
    aor: Seq<char>,
    conn: ConnState,
    stored: Seq<Seq<char>>,
    closed: Seq<u64>,
    now: u64,
    grace: u64,
)
    requires
        stored.contains(aor),
        conn.writer matches Some(w) && !closed.contains(w),
    ensures
        fate(aor, conn, stored, closed, now, grace) == Fate::Stays(
            ConnState { writer: conn.writer, dead_since: None },
        ),
{
}

/// A connection seen closed at `first` and closed since is held for the grace
/// period, and no longer.
pub proof fn a_lost_connection_has_the_grace_period(
    aor: Seq<char>,
    conn: ConnState,
    stored: Seq<Seq<char>>,
    closed: Seq<u64>,
    first: u64,
    later: u64,
    grace: u64,
)
    requires
        stored.contains(aor),
        conn.dead_since is None,
        conn.writer matches Some(w) && closed.contains(w),
        first <= later,
        grace > 0,
    ensures
        ({
            let marked = fate(aor, conn, stored, closed, first, grace);
            &&& marked is Stays
            &&& fate(aor, marked->Stays_0, stored, closed, later, grace) is Lost <==> later - first
                >= grace
        }),
{
}

/// Each address is bound at most once.
pub open spec fn bound_once(b: Seq<(Seq<char>, ConnState)>) -> bool {
    forall|i: int, j: int| 0 <= i < j < b.len() ==> (#[trigger] b[i]).0 != (#[trigger] b[j]).0
}

proof fn bound_at_is_first(c: Seq<Bound>, aor: Seq<char>, from: int)
    requires
        0 <= from <= c.len(),
    ensures
        from <= bound_at(c, aor, from) <= c.len(),
        bound_at(c, aor, from) < c.len() ==> c[bound_at(c, aor, from)].aor@ == aor,
        forall|k: int| from <= k < bound_at(c, aor, from) ==> (#[trigger] c[k]).aor@ != aor,
    decreases c.len() - from,
{
    if from < c.len() && c[from].aor@ != aor {
        bound_at_is_first(c, aor, from + 1);
    }
}

/// The first binding of an address is the one that is found.
proof fn first_is_found(c: Seq<Bound>, aor: Seq<char>, i: int)
    requires
        0 <= i <= c.len(),
        i < c.len() ==> c[i].aor@ == aor,
        forall|k: int| 0 <= k < i ==> (#[trigger] c[k]).aor@ != aor,
    ensures
        bound_at(c, aor, 0) == i,
{
    bound_at_is_first(c, aor, 0);
}

/// An accepted REGISTER binds its address to the connection that it came over,
/// whatever the address was bound to before.
pub proof fn a_registration_reaches_its_connection(
    before: Seq<Bound>,
    after: Seq<Bound>,
    aor: Seq<char>,
    stream: Option<u64>,
)
    requires
        bindings(after) == synced(before, aor, true, stream),
    ensures
        bound_at(after, aor, 0) < after.len(),
        after[bound_at(after, aor, 0)].conn == (ConnState { writer: stream, dead_since: None }),
{
    let i = bound_at(before, aor, 0);
    bound_at_is_first(before, aor, 0);
    assert(bindings(after).len() == after.len());
    assert(bindings(after)[i] == (after[i].aor@, after[i].conn));
    assert forall|k: int| 0 <= k < i implies (#[trigger] after[k]).aor@ != aor by {
        assert(bindings(after)[k] == bindings(before)[k]);
        assert(before[k].aor@ != aor);
    }
    first_is_found(after, aor, i);
}

/// A REGISTER that removes the binding leaves the address unreachable.
pub proof fn an_ended_registration_is_gone(
    before: Seq<Bound>,
    after: Seq<Bound>,
    aor: Seq<char>,
    stream: Option<u64>,
)
    requires
        bound_once(bindings(before)),
        bindings(after) == synced(before, aor, false, stream),
    ensures
        bound_at(after, aor, 0) == after.len(),
{
    let i = bound_at(before, aor, 0);
    bound_at_is_first(before, aor, 0);
    assert(bindings(after).len() == after.len());
    assert forall|k: int| 0 <= k < after.len() implies (#[trigger] after[k]).aor@ != aor by {
        let m = if k < i {
            k
        } else {
            k + 1
        };
        assert(bindings(after)[k].0 == after[k].aor@);
        if i < before.len() {
            assert(bindings(after)[k] == bindings(before)[m]);
            assert(bindings(before)[i].0 == aor);
            assert(bindings(before)[m].0 != aor);
        } else {
            assert(before[k].aor@ != aor);
        }
    }
    first_is_found(after, aor, after.len() as int);
}

/// A REGISTER changes nothing for any other address.
pub proof fn registrations_are_independent(
    before: Seq<Bound>,
    after: Seq<Bound>,
    aor: Seq<char>,
    registered: bool,
    stream: Option<u64>,
    other: Seq<char>,
)
    requires
        bindings(after) == synced(before, aor, registered, stream),
        other != aor,
    ensures
        bound_at(before, other, 0) < before.len() <==> bound_at(after, other, 0) < after.len(),
        bound_at(before, other, 0) < before.len() ==> after[bound_at(after, other, 0)].conn
            == before[bound_at(before, other, 0)].conn,
{
    let i = bound_at(before, aor, 0);
    let o = bound_at(before, other, 0);
    bound_at_is_first(before, aor, 0);
    bound_at_is_first(before, other, 0);
    assert(bindings(after).len() == after.len());
    assert forall|k: int| 0 <= k < after.len() implies bindings(after)[k] == (
        (#[trigger] after[k]).aor@,
        after[k].conn,
    ) by {}
    if registered || i == before.len() {
        let p = if o < before.len() {
            o
        } else {
            after.len() as int
        };
        assert forall|k: int| 0 <= k < p implies (#[trigger] after[k]).aor@ != other by {
            if k != i {
                assert(bindings(after)[k] == bindings(before)[k]);
                assert(before[k].aor@ != other);
            }
        }
        first_is_found(after, other, p);
    } else {
        let p = if o < i {
            o
        } else {
            o - 1
        };
        assert forall|k: int| 0 <= k < p implies (#[trigger] after[k]).aor@ != other by {
            let m = if k < i {
                k
            } else {
                k + 1
            };
            assert(bindings(after)[k] == bindings(before)[m]);
            assert(before[m].aor@ != other);
        }
        if o < before.len() {
            assert(bindings(after)[p] == bindings(before)[o]);
        }
        first_is_found(after, other, p);
    }
}

/// A REGISTER keeps every address bound at most once.
pub proof fn registering_keeps_addresses_bound_once(
    before: Seq<Bound>,
    aor: Seq<char>,
    registered: bool,
    stream: Option<u64>,
)
    requires
        bound_once(bindings(before)),
    ensures
        bound_once(synced(before, aor, registered, stream)),
{
    let i = bound_at(before, aor, 0);
    let b = bindings(before);
    let after = synced(before, aor, registered, stream);
    bound_at_is_first(before, aor, 0);
    assert forall|m: int, n: int| 0 <= m < n < after.len() implies (#[trigger] after[m]).0 != (
    #[trigger] after[n]).0 by {
        if registered {
            if i < before.len() {
                assert(b[i].0 == aor);
                assert(after[m].0 == b[m].0 && after[n].0 == b[n].0);
            } else {
                assert(after[m] == b[m]);
                assert(before[m].aor@ != aor);
                if n < b.len() {
                    assert(after[n] == b[n]);
                }
            }
        } else if i < before.len() {
            let m2 = if m < i {
                m
            } else {
                m + 1
            };
            let n2 = if n < i {
                n
            } else {
                n + 1
            };
            assert(after[m] == b[m2] && after[n] == b[n2]);
        }
    }
}

/// A sweep keeps every address bound at most once, and binds none.
pub proof fn sweeping_keeps_addresses_bound_once(
    c: Seq<(Seq<char>, ConnState)>,
    stored: Seq<Seq<char>>,
    closed: Seq<u64>,
    now: u64,
    grace: u64,
)
    requires
        bound_once(c),
    ensures
        bound_once(swept(c, stored, closed, now, grace)),
        forall|k: int|
            0 <= k < swept(c, stored, closed, now, grace).len() ==> exists|i: int|
                0 <= i < c.len() && (#[trigger] c[i]).0 == (#[trigger] swept(
                    c,
                    stored,
                    closed,
                    now,
                    grace,
                )[k]).0,
    decreases c.len(),
{
    if c.len() > 0 {
        let init = c.drop_last();
        let front = swept(init, stored, closed, now, grace);
        let all = swept(c, stored, closed, now, grace);
        assert forall|i: int, j: int| 0 <= i < j < init.len() implies (#[trigger] init[i]).0 != (
        #[trigger] init[j]).0 by {
            assert(init[i] == c[i] && init[j] == c[j]);
        }
        sweeping_keeps_addresses_bound_once(init, stored, closed, now, grace);
        assert forall|k: int| 0 <= k < all.len() implies exists|i: int|
            0 <= i < c.len() && (#[trigger] c[i]).0 == (#[trigger] all[k]).0 by {
            if k < front.len() {
                assert(all[k] == front[k]);
                let i = choose|i: int| 0 <= i < init.len() && (#[trigger] init[i]).0 == front[k].0;
                assert(c[i] == init[i]);
            } else {
                assert(c[c.len() - 1].0 == all[k].0);
            }
        }
        assert forall|m: int, n: int| 0 <= m < n < all.len() implies (#[trigger] all[m]).0 != (
        #[trigger] all[n]).0 by {
            assert(all[m] == front[m]);
            if n < front.len() {
                assert(all[n] == front[n]);
            } else {
                let i = choose|i: int| 0 <= i < init.len() && (#[trigger] init[i]).0 == front[m].0;
                assert(init[i] == c[i]);
                assert(c[c.len() - 1].0 == all[n].0);
            }
        }
    }
}

// ---- What is promised of every call ----

/// Each outcome of a REGISTER is counted under a label of its own, and every code that has
/// none counts as a reject.
pub proof fn each_register_outcome_has_its_label(code: Option<u16>, r: &'static str)
    requires
        call_ensures(register_result, (code,), r),
    ensures
        r@ == "error"@ <==> code is None,
        r@ == "ok"@ <==> code == Some(200u16),
        r@ == "challenged"@ <==> code == Some(401u16),
        r@ == "forbidden"@ <==> code == Some(403u16),
        r@ == "interval_too_brief"@ <==> code == Some(423u16),
        r@ == "rejected"@ <==> code is Some && code->0 != 200 && code->0 != 401 && code->0 != 403
            && code->0 != 423,
{
    reveal_strlit("error");
    reveal_strlit("ok");
    reveal_strlit("challenged");
    reveal_strlit("forbidden");
    reveal_strlit("interval_too_brief");
    reveal_strlit("rejected");
    assert("error"@.len() == 5);
    assert("ok"@.len() == 2);
    assert("challenged"@.len() == 10);
    assert("forbidden"@.len() == 9);
    assert("interval_too_brief"@.len() == 18);
    assert("rejected"@.len() == 8);
}

/// A registrar starts with nothing registered and a grace period of 32 seconds; it takes
/// the three digest algorithms by their names, no other, and needs none where anybody may
/// register.
pub proof fn a_registrar_takes_three_algorithms(
    settings: &RegistrarSettings,
    r: Result<RegistrarService, String>,
)
    requires
        call_ensures(RegistrarService::new, (settings,), r),
    ensures
        r is Ok ==> r->Ok_0.wf() && r->Ok_0.connections@.len() == 0 && r->Ok_0.disconnect_grace
            == 32_000,
        settings.auth is None ==> r is Ok && r->Ok_0.algorithm is None,
        settings.auth is Some ==> ({
            let name = settings.auth->0.algorithm@;
            &&& r is Ok <==> name == "MD5"@ || name == "SHA-256"@ || name == "SHA-512"@
            &&& r is Ok ==> r->Ok_0.algorithm is Some
            &&& name == "MD5"@ ==> r->Ok_0.algorithm == Some(DigestAlgorithm::Md5)
            &&& name == "SHA-256"@ ==> r->Ok_0.algorithm == Some(DigestAlgorithm::Sha256)
            &&& name == "SHA-512"@ ==> r->Ok_0.algorithm == Some(DigestAlgorithm::Sha512)
        }),
{
    reveal_strlit("MD5");
    reveal_strlit("SHA-256");
    reveal_strlit("SHA-512");
    assert("MD5"@.len() == 3);
    assert("SHA-256"@[4] == '2' && "SHA-512"@[4] == '5');
}

/// After a REGISTER that was answered `200` and stored, a call for that address goes out
/// over the connection that it came over, as long as that is open; after one that ended
/// the registration there is none; and for every other address, and after every other
/// answer, all is as before.
pub proof fn a_call_goes_out_over_the_last_registration(
    s: &mut RegistrarService,
    code: Option<u16>,
    aor: Option<String>,
    registered: bool,
    stream: Option<u64>,
    answer: (u16, &'static str),
    asked: &str,
    closed: &Vec<u64>,
    before: RegistrarService,
    was: Option<u64>,
    after: RegistrarService,
    now: Option<u64>,
)
    requires
        old(s).wf(),
        call_ensures(
            RegistrarService::handle_register,
            (s, code, aor, registered, stream),
            answer,
        ),
        before == *old(s),
        after == *final(s),
        call_ensures(RegistrarService::connection_for, (&before, asked, closed), was),
        call_ensures(RegistrarService::connection_for, (&after, asked, closed), now),
    ensures
        code is Some ==> answer.0 == code->0,
        code is None ==> answer.0 == 500,
        code == Some(200u16) && aor is Some && aor->0@ == asked@ && registered ==> {
            &&& stream is None ==> now is None
            &&& stream is Some && !closed@.contains(stream->0) ==> now == stream
            &&& stream is Some && closed@.contains(stream->0) ==> now is None
        },
        code == Some(200u16) && aor is Some && aor->0@ == asked@ && !registered ==> now is None,
        code != Some(200u16) || aor is None || aor->0@ != asked@ ==> now == was,
{
    let b = before.connections@;
    let a = after.connections@;
    if code == Some(200u16) && aor is Some {
        assert(bindings(a) == synced(b, aor->0@, registered, stream));
        if aor->0@ == asked@ {
            if registered {
                a_registration_reaches_its_connection(b, a, asked@, stream);
            } else {
                an_ended_registration_is_gone(b, a, asked@, stream);
            }
        } else {
            registrations_are_independent(b, a, aor->0@, registered, stream, asked@);
        }
    } else {
        assert(bindings(a) == bindings(b));
        assert(a.len() == b.len()) by {
            assert(bindings(a).len() == bindings(b).len());
        }
        same_bindings_are_found_alike(a, b, asked@, 0);
        let i = bound_at(b, asked@, 0);
        bound_at_is_first(b, asked@, 0);
        if i < b.len() {
            assert(bindings(a)[i] == bindings(b)[i]);
        }
    }
}

proof fn same_bindings_are_found_alike(a: Seq<Bound>, b: Seq<Bound>, aor: Seq<char>, i: int)
    requires
        a.len() == b.len(),
        bindings(a) == bindings(b),
        0 <= i <= a.len(),
    ensures
        bound_at(a, aor, i) == bound_at(b, aor, i),
    decreases a.len() - i,
{
    if i < a.len() {
        assert(bindings(a)[i] == bindings(b)[i]);
        same_bindings_are_found_alike(a, b, aor, i + 1);
    }
}

/// The fate of one registration in a sweep. It is gone when the SIP stack no longer stores
/// it. One that came over no connection, or over one that is open, stays, with no mark. One
/// whose connection is closed keeps the time at which that was first seen, and is handed
/// over for eviction, and gone, as soon as the grace period has passed since.
pub proof fn a_sweep_ends_what_is_over(
    s: &mut RegistrarService,
    stored: &Vec<String>,
    closed: &Vec<u64>,
    now: u64,
    r: SweepReport,
    i: int,
)
    requires
        old(s).wf(),
        call_ensures(RegistrarService::sweep, (s, stored, closed, now), r),
        0 <= i < old(s).connections@.len(),
    ensures
        ({
            let b = old(s).connections@[i];
            let is_stored = exists|k: int| 0 <= k < stored@.len() && (#[trigger] stored@[k])@ == b.aor@;
            let is_closed = b.conn.writer is Some && closed@.contains(b.conn.writer->0);
            let since = if b.conn.dead_since is Some {
                b.conn.dead_since->0
            } else {
                now
            };
            let over = is_closed && (now - since >= old(s).disconnect_grace || old(
                s,
            ).disconnect_grace == 0);
            let mark = if is_closed {
                Some(since)
            } else if b.conn.writer is Some {
                None
            } else {
                b.conn.dead_since
            };
            let stays = exists|k: int|
                0 <= k < final(s).connections@.len() && (#[trigger] final(s).connections@[k]).aor@
                    == b.aor@;
            let evicted = exists|k: int|
                0 <= k < r.evict@.len() && (#[trigger] r.evict@[k])@ == b.aor@;
            &&& stays <==> is_stored && !over
            &&& evicted <==> is_stored && over
            &&& stays ==> exists|k: int|
                0 <= k < final(s).connections@.len() && (#[trigger] final(s).connections@[k]).aor@
                    == b.aor@ && final(s).connections@[k].conn == (ConnState {
                    writer: b.conn.writer,
                    dead_since: mark,
                })
        }),
{
    let c = old(s)@;
    let st = views(stored@);
    let grace = old(s).disconnect_grace;
    let b = old(s).connections@[i];
    let left = final(s)@;
    let out = views(r.evict@);
    assert(c[i] == (b.aor@, b.conn));
    a_sweep_keeps_what_stays(c, st, closed@, now, grace, i);
    if st.contains(b.aor@) {
        let k = choose|k: int| 0 <= k < st.len() && st[k] == b.aor@;
        assert(stored@[k]@ == b.aor@);
    }
    if exists|k: int| 0 <= k < stored@.len() && (#[trigger] stored@[k])@ == b.aor@ {
        let k = choose|k: int| 0 <= k < stored@.len() && (#[trigger] stored@[k])@ == b.aor@;
        assert(st[k] == b.aor@);
    }
    let f = fate(b.aor@, b.conn, st, closed@, now, grace);
    if f is Stays {
        let k = choose|k: int| 0 <= k < left.len() && left[k] == (b.aor@, f->Stays_0);
        assert(final(s).connections@[k].aor@ == b.aor@);
    }
    if f is Lost {
        let k = choose|k: int| 0 <= k < out.len() && out[k] == b.aor@;
        assert(r.evict@[k]@ == b.aor@);
    }
    if exists|k: int|
        0 <= k < final(s).connections@.len() && (#[trigger] final(s).connections@[k]).aor@
            == b.aor@ {
        let k = choose|k: int|
            0 <= k < final(s).connections@.len() && (#[trigger] final(s).connections@[k]).aor@
                == b.aor@;
        assert(left[k].0 == b.aor@);
        let j = a_sweep_keeps_nothing_else(c, st, closed@, now, grace, k);
        assert(j == i);
    }
    if exists|k: int| 0 <= k < r.evict@.len() && (#[trigger] r.evict@[k])@ == b.aor@ {
        let k = choose|k: int| 0 <= k < r.evict@.len() && (#[trigger] r.evict@[k])@ == b.aor@;
        assert(out[k] == b.aor@);
        let j = a_sweep_evicts_nothing_else(c, st, closed@, now, grace, k);
        assert(j == i);
    }
}

proof fn a_sweep_keeps_what_stays(
    c: Seq<(Seq<char>, ConnState)>,
    stored: Seq<Seq<char>>,
    closed: Seq<u64>,
    now: u64,
    grace: u64,
    i: int,
)
    requires
        0 <= i < c.len(),
    ensures
        ({
            let f = fate(c[i].0, c[i].1, stored, closed, now, grace);
            &&& f is Stays ==> swept(c, stored, closed, now, grace).contains(
                (c[i].0, f->Stays_0),
            )
            &&& f is Lost ==> lost(c, stored, closed, now, grace).contains(c[i].0)
        }),
    decreases c.len(),
{
    let init = c.drop_last();
    let all = swept(c, stored, closed, now, grace);
    let out = lost(c, stored, closed, now, grace);
    let f = fate(c[i].0, c[i].1, stored, closed, now, grace);
    if i < init.len() {
        assert(init[i] == c[i]);
        a_sweep_keeps_what_stays(init, stored, closed, now, grace, i);
        let front = swept(init, stored, closed, now, grace);
        let gone = lost(init, stored, closed, now, grace);
        if f is Stays {
            let k = choose|k: int| 0 <= k < front.len() && front[k] == (c[i].0, f->Stays_0);
            assert(all[k] == front[k]);
        }
        if f is Lost {
            let k = choose|k: int| 0 <= k < gone.len() && gone[k] == c[i].0;
            assert(out[k] == gone[k]);
        }
    } else {
        if f is Stays {
            assert(all[all.len() - 1] == (c[i].0, f->Stays_0));
        }
        if f is Lost {
            assert(out[out.len() - 1] == c[i].0);
        }
    }
}

proof fn a_sweep_keeps_nothing_else(
    c: Seq<(Seq<char>, ConnState)>,
    stored: Seq<Seq<char>>,
    closed: Seq<u64>,
    now: u64,
    grace: u64,
    k: int,
) -> (j: int)
    requires
        0 <= k < swept(c, stored, closed, now, grace).len(),
    ensures
        0 <= j < c.len(),
        c[j].0 == swept(c, stored, closed, now, grace)[k].0,
        fate(c[j].0, c[j].1, stored, closed, now, grace) is Stays,
    decreases c.len(),
{
    let init = c.drop_last();
    let front = swept(init, stored, closed, now, grace);
    if k < front.len() {
        let j = a_sweep_keeps_nothing_else(init, stored, closed, now, grace, k);
        assert(c[j] == init[j]);
        j
    } else {
        c.len() - 1
    }
}

proof fn a_sweep_evicts_nothing_else(
    c: Seq<(Seq<char>, ConnState)>,
    stored: Seq<Seq<char>>,
    closed: Seq<u64>,
    now: u64,
    grace: u64,
    k: int,
) -> (j: int)
    requires
        0 <= k < lost(c, stored, closed, now, grace).len(),
    ensures
        0 <= j < c.len(),
        c[j].0 == lost(c, stored, closed, now, grace)[k],
        fate(c[j].0, c[j].1, stored, closed, now, grace) is Lost,
    decreases c.len(),
{
    let init = c.drop_last();
    let front = lost(init, stored, closed, now, grace);
    if k < front.len() {
        let j = a_sweep_evicts_nothing_else(init, stored, closed, now, grace, k);
        assert(c[j] == init[j]);
        j
    } else {
        c.len() - 1
    }
}

/// A sweep binds no address that was not bound, and counts what it ended.
pub proof fn a_sweep_counts_what_it_ends(
    s: &mut RegistrarService,
    stored: &Vec<String>,
    closed: &Vec<u64>,
    now: u64,
    r: SweepReport,
    k: int,
)
    requires
        old(s).wf(),
        call_ensures(RegistrarService::sweep, (s, stored, closed, now), r),
    ensures
        final(s).wf(),
        final(s).connections@.len() + r.expired == old(s).connections@.len(),
        final(s).disconnect_grace == old(s).disconnect_grace,
        final(s).algorithm == old(s).algorithm,
        0 <= k < final(s).connections@.len() ==> exists|i: int|
            0 <= i < old(s).connections@.len() && (#[trigger] old(s).connections@[i]).aor@
                == final(s).connections@[k].aor@ && old(s).connections@[i].conn.writer
                == final(s).connections@[k].conn.writer,
{
    let c = old(s)@;
    let st = views(stored@);
    let grace = old(s).disconnect_grace;
    let left = final(s)@;
    assert(left.len() == final(s).connections@.len());
    if 0 <= k < left.len() {
        let i = a_sweep_keeps_nothing_else(c, st, closed@, now, grace, k);
        a_sweep_keeps_what_stays(c, st, closed@, now, grace, i);
        let f = fate(c[i].0, c[i].1, st, closed@, now, grace);
        let q = choose|q: int| 0 <= q < left.len() && left[q] == (c[i].0, f->Stays_0);
        sweeping_keeps_addresses_bound_once(c, st, closed@, now, grace);
        assert(q == k);
        assert(old(s).connections@[i].aor@ == final(s).connections@[k].aor@);
        assert(left[k] == (final(s).connections@[k].aor@, final(s).connections@[k].conn));
    }
}

/// Another grace period changes nothing else.
pub proof fn a_grace_period_is_set_alone(s: RegistrarService, grace: u64, r: RegistrarService)
    requires
        call_ensures(RegistrarService::with_disconnect_grace, (s, grace), r),
    ensures
        r.disconnect_grace == grace,
        r.algorithm == s.algorithm,
        r.connections == s.connections,
{
}

/// The addresses that are bound are told in their order; and a binding that follows the
/// location store is the one that a REGISTER leaves.
pub proof fn a_binding_follows_the_store(
    s: &mut RegistrarService,
    aor: String,
    registered: bool,
    stream: Option<u64>,
    after: RegistrarService,
    bound: Vec<String>,
    asked: &str,
    closed: &Vec<u64>,
    now: Option<u64>,
    i: int,
)
    requires
        old(s).wf(),
        call_ensures(RegistrarService::sync_binding, (s, aor, registered, stream), ()),
        after == *final(s),
        call_ensures(RegistrarService::bound_aors, (&after,), bound),
        asked@ == aor@,
        call_ensures(RegistrarService::connection_for, (&after, asked, closed), now),
    ensures
        registered && stream is Some && !closed@.contains(stream->0) ==> now == stream,
        registered ==> exists|k: int| 0 <= k < bound@.len() && (#[trigger] bound@[k])@ == aor@,
        !registered ==> now is None && forall|k: int|
            0 <= k < bound@.len() ==> (#[trigger] bound@[k])@ != aor@,
        bound@.len() == after.connections@.len(),
        0 <= i < bound@.len() ==> bound@[i] == after.connections@[i].aor,
{
    let b = old(s).connections@;
    let a = after.connections@;
    bound_at_is_first(a, aor@, 0);
    if registered {
        a_registration_reaches_its_connection(b, a, aor@, stream);
        let k = bound_at(a, aor@, 0);
        assert(bound@[k]@ == aor@);
    } else {
        an_ended_registration_is_gone(b, a, aor@, stream);
        assert forall|k: int| 0 <= k < bound@.len() implies (#[trigger] bound@[k])@ != aor@ by {
            assert(a[k].aor@ != aor@);
        }
    }
}

} // verus!
