//! The table of outbound registrations.
//!
//! One row per `[[register]]` block, filled at startup and updated by the task
//! that drives the block. Times are milliseconds.
use vstd::prelude::*;

use crate::net::SocketAddr;
use crate::text::str_eq;

verus! {

/// One `[[register]]` block.
#[derive(Debug, Clone)]
pub struct RegistrationEntry {
    pub name: String,
    pub server_addr: SocketAddr,
    pub register_on_startup: bool,
}

/// Where a registration stands.
#[derive(Debug, Clone, Copy, PartialEq, Eq, Structural)]
pub enum RegistrationStatus {
    /// Not attempted yet.
    Pending,
    /// The last attempt succeeded.
    Registered,
    /// The last attempt failed.
    Failed,
    /// Configured, but not to be attempted at startup.
    Disabled,
}

impl RegistrationStatus {
    /// The label of each status.
    pub open spec fn label(self) -> Seq<char> {
        match self {
            RegistrationStatus::Pending => "pending"@,
            RegistrationStatus::Registered => "registered"@,
            RegistrationStatus::Failed => "failed"@,
            RegistrationStatus::Disabled => "disabled"@,
        }
    }

    /// The label of this status.
    pub fn as_str(self) -> (r: &'static str)
        ensures
            r@ == self.label(),
    {
        match self {
            RegistrationStatus::Pending => "pending",
            RegistrationStatus::Registered => "registered",
            RegistrationStatus::Failed => "failed",
            RegistrationStatus::Disabled => "disabled",
        }
    }
}

/// One row of the table.
#[derive(Debug)]
pub struct RegistrationState {
    pub name: String,
    pub server_addr: SocketAddr,
    pub status: RegistrationStatus,
    /// When the last attempt ended; `None` before the first.
    pub last_attempt_at: Option<u64>,
    /// When the registration expires; only of one that is registered.
    pub expires_at: Option<u64>,
    pub last_error: Option<String>,
}

impl Clone for RegistrationState {
    fn clone(&self) -> (r: Self)
        ensures
            r == *self,
    {
        RegistrationState {
            name: self.name.clone(),
            server_addr: self.server_addr,
            status: self.status,
            last_attempt_at: self.last_attempt_at,
            expires_at: self.expires_at,
            last_error: match &self.last_error {
                Some(e) => Some(e.clone()),
                None => None,
            },
        }
    }
}

impl RegistrationState {
    /// The row that a block starts with.
    pub open spec fn starts(self, cfg: RegistrationEntry) -> bool {
        &&& self.name == cfg.name
        &&& self.server_addr == cfg.server_addr
        &&& self.status == (if cfg.register_on_startup {
            RegistrationStatus::Pending
        } else {
            RegistrationStatus::Disabled
        })
        &&& self.last_attempt_at is None
        &&& self.expires_at is None
        &&& self.last_error is None
    }

    /// The row that a block starts with.
    pub fn new_pending(cfg: &RegistrationEntry) -> (r: Self)
        ensures
            r.starts(*cfg),
    {
        let status = if cfg.register_on_startup {
            RegistrationStatus::Pending
        } else {
            RegistrationStatus::Disabled
        };
        RegistrationState {
            name: cfg.name.clone(),
            server_addr: cfg.server_addr,
            status,
            last_attempt_at: None,
            expires_at: None,
            last_error: None,
        }
    }
}

/// The table of registrations, and which registration each server address
/// belongs to.
#[derive(Debug)]
pub struct RegistrationManager {
    pub states: Vec<RegistrationState>,
    pub by_addr: Vec<(SocketAddr, String)>,
}

/// The index of the row of that name, from the `i`th on; the length when there
/// is none.
pub open spec fn row_of(states: Seq<RegistrationState>, name: Seq<char>, i: int) -> int
    decreases states.len() - i,
{
    if i >= states.len() || states[i].name@ == name {
        i
    } else {
        row_of(states, name, i + 1)
    }
}

/// The index of the address, from the `i`th on; the length when there is none.
pub open spec fn addr_of(by_addr: Seq<(SocketAddr, String)>, addr: SocketAddr, i: int) -> int
    decreases by_addr.len() - i,
{
    if i >= by_addr.len() || by_addr[i].0 == addr {
        i
    } else {
        addr_of(by_addr, addr, i + 1)
    }
}

/// `t` is `s` with a starting row for every block that has none yet: of two
/// blocks of one name the first counts.
pub open spec fn rows_seeded(
    s: Seq<RegistrationState>,
    t: Seq<RegistrationState>,
    configs: Seq<RegistrationEntry>,
) -> bool
    decreases configs.len(),
{
    if configs.len() == 0 {
        t == s
    } else {
        let cfg = configs[0];
        if row_of(s, cfg.name@, 0) < s.len() {
            rows_seeded(s, t, configs.drop_first())
        } else {
            exists|row: RegistrationState|
                #![trigger s.push(row)]
                row.starts(cfg) && rows_seeded(s.push(row), t, configs.drop_first())
        }
    }
}

/// The addresses after the blocks: of two blocks of one address the first counts.
pub open spec fn addrs_seeded(
    s: Seq<(SocketAddr, String)>,
    configs: Seq<RegistrationEntry>,
) -> Seq<(SocketAddr, String)>
    decreases configs.len(),
{
    if configs.len() == 0 {
        s
    } else {
        let cfg = configs[0];
        if addr_of(s, cfg.server_addr, 0) < s.len() {
            addrs_seeded(s, configs.drop_first())
        } else {
            addrs_seeded(s.push((cfg.server_addr, cfg.name)), configs.drop_first())
        }
    }
}

/// The row after an attempt: an expiry is kept only of a registration that
/// succeeded.
pub open spec fn attempted(
    row: RegistrationState,
    status: RegistrationStatus,
    last_error: Option<String>,
    expires_at: Option<u64>,
    now: u64,
) -> RegistrationState {
    RegistrationState {
        status,
        last_attempt_at: Some(now),
        last_error,
        expires_at: if status == RegistrationStatus::Registered {
            expires_at
        } else {
            None
        },
        ..row
    }
}

fn find_row(states: &Vec<RegistrationState>, name: &str) -> (i: usize)
    ensures
        i == row_of(states@, name@, 0),
        i <= states@.len(),
{
    let mut i: usize = 0;
    while i < states.len()
        invariant
            i <= states@.len(),
            row_of(states@, name@, 0) == row_of(states@, name@, i as int),
        decreases states@.len() - i,
    {
        if str_eq(states[i].name.as_str(), name) {
            return i;
        }
        i += 1;
    }
    i
}

fn find_addr(by_addr: &Vec<(SocketAddr, String)>, addr: SocketAddr) -> (i: usize)
    ensures
        i == addr_of(by_addr@, addr, 0),
        i <= by_addr@.len(),
{
    let mut i: usize = 0;
    while i < by_addr.len()
        invariant
            i <= by_addr@.len(),
            addr_of(by_addr@, addr, 0) == addr_of(by_addr@, addr, i as int),
        decreases by_addr@.len() - i,
    {
        if by_addr[i].0 == addr {
            return i;
        }
        i += 1;
    }
    i
}

impl RegistrationManager {
    /// No two rows share a name, and no address belongs to two registrations.
    pub open spec fn wf(self) -> bool {
        names_unique(self.states@) && addrs_unique(self.by_addr@)
    }

    /// An empty table.
    pub fn new() -> (r: Self)
        ensures
            r.wf(),
            r.states@ == Seq::<RegistrationState>::empty(),
            r.by_addr@ == Seq::<(SocketAddr, String)>::empty(),
    {
        RegistrationManager { states: Vec::new(), by_addr: Vec::new() }
    }

    /// Adds a row for every block.
    pub fn seed(&mut self, configs: &[RegistrationEntry])
        requires
            old(self).wf(),
        ensures
            final(self).wf(),
            rows_seeded(old(self).states@, final(self).states@, configs@),
            final(self).by_addr@ == addrs_seeded(old(self).by_addr@, configs@),
    {
        self.seed_from(configs, 0);
        assert(configs@.subrange(0, configs@.len() as int) =~= configs@);
        proof {
            seeding_keeps_names_unique(old(self).states@, self.states@, configs@);
            seeding_keeps_addresses_unique(old(self).by_addr@, configs@);
        }
    }

    fn seed_from(&mut self, configs: &[RegistrationEntry], i: usize)
        requires
            i <= configs@.len(),
        ensures
            rows_seeded(
                old(self).states@,
                final(self).states@,
                configs@.subrange(i as int, configs@.len() as int),
            ),
            final(self).by_addr@ == addrs_seeded(
                old(self).by_addr@,
                configs@.subrange(i as int, configs@.len() as int),
            ),
        decreases configs@.len() - i,
    {
        let ghost rest = configs@.subrange(i as int, configs@.len() as int);
        if i >= configs.len() {
            return;
        }
        let cfg = &configs[i];
        assert(rest[0] == *cfg);
        assert(rest.drop_first() =~= configs@.subrange(i + 1, configs@.len() as int));
        if find_addr(&self.by_addr, cfg.server_addr) >= self.by_addr.len() {
            self.by_addr.push((cfg.server_addr, cfg.name.clone()));
        }
        if find_row(&self.states, cfg.name.as_str()) >= self.states.len() {
            let row = RegistrationState::new_pending(cfg);
            self.states.push(row);
        }
        self.seed_from(configs, i + 1);
    }

    /// Every row, in the order in which they were added.
    pub fn snapshot(&self) -> (r: Vec<RegistrationState>)
        ensures
            r@ == self.states@,
    {
        let mut out: Vec<RegistrationState> = Vec::new();
        let mut i: usize = 0;
        while i < self.states.len()
            invariant
                i <= self.states@.len(),
                out@ == self.states@.subrange(0, i as int),
            decreases self.states@.len() - i,
        {
            out.push(self.states[i].clone());
            i += 1;
        }
        assert(out@ =~= self.states@);
        out
    }

    /// The row of that name.
    pub fn get(&self, name: &str) -> (r: Option<RegistrationState>)
        ensures
            match r {
                Some(row) => row_of(self.states@, name@, 0) < self.states@.len() && row
                    == self.states@[row_of(self.states@, name@, 0)],
                None => row_of(self.states@, name@, 0) >= self.states@.len(),
            },
    {
        let i = find_row(&self.states, name);
        if i < self.states.len() {
            Some(self.states[i].clone())
        } else {
            None
        }
    }

    /// The registration that a peer address belongs to.
    pub fn resolve_source(&self, peer: SocketAddr) -> (r: Option<String>)
        ensures
            match r {
                Some(name) => addr_of(self.by_addr@, peer, 0) < self.by_addr@.len() && name
                    == self.by_addr@[addr_of(self.by_addr@, peer, 0)].1,
                None => addr_of(self.by_addr@, peer, 0) >= self.by_addr@.len(),
            },
    {
        let i = find_addr(&self.by_addr, peer);
        if i < self.by_addr.len() {
            Some(self.by_addr[i].1.clone())
        } else {
            None
        }
    }

    /// Records the outcome of an attempt at `now`. Whether there is such a
    /// registration; without one nothing changes.
    pub fn set_status(
        &mut self,
        name: &str,
        status: RegistrationStatus,
        last_error: Option<String>,
        expires_at: Option<u64>,
        now: u64,
    ) -> (known: bool)
        requires
            old(self).wf(),
        ensures
            final(self).wf(),
            final(self).by_addr == old(self).by_addr,
            known == (row_of(old(self).states@, name@, 0) < old(self).states@.len()),
            final(self).states@ == (if known {
                let i = row_of(old(self).states@, name@, 0);
                old(self).states@.update(
                    i,
                    attempted(old(self).states@[i], status, last_error, expires_at, now),
                )
            } else {
                old(self).states@
            }),
    {
        let i = find_row(&self.states, name);
        if i >= self.states.len() {
            return false;
        }
        let row = self.states[i].clone();
        let ghost before = self.states@;
        let kept = if status == RegistrationStatus::Registered {
            expires_at
        } else {
            None
        };
        self.states.set(
            i,
            RegistrationState {
                name: row.name,
                server_addr: row.server_addr,
                status,
                last_attempt_at: Some(now),
                expires_at: kept,
                last_error,
            },
        );
        assert forall|a: int, b: int| 0 <= a < b < self.states@.len() implies (
        #[trigger] self.states@[a]).name@ != (#[trigger] self.states@[b]).name@ by {
            assert(self.states@[a].name == before[a].name && self.states@[b].name
                == before[b].name);
        }
        true
    }
}

impl Default for RegistrationManager {
    fn default() -> (r: Self)
        ensures
            r.wf(),
            r.states@ == Seq::<RegistrationState>::empty(),
            r.by_addr@ == Seq::<(SocketAddr, String)>::empty(),
    {
        RegistrationManager::new()
    }
}

// ---- Timing ----

/// How long before its expiry a registration is refreshed.
pub const REFRESH_MARGIN: u64 = 60_000;

/// How long to wait after a failed attempt.
pub const FAILURE_BACKOFF: u64 = 30_000;

/// The shortest wait before a refresh.
pub const MIN_REFRESH_DELAY: u64 = 5_000;

/// When to refresh a registration that was granted for `expires`: a margin before
/// its end, but never sooner than the floor.
pub fn refresh_delay(expires: u64) -> (r: u64)
    ensures
        r == (if expires >= REFRESH_MARGIN + MIN_REFRESH_DELAY {
            (expires - REFRESH_MARGIN) as u64
        } else {
            MIN_REFRESH_DELAY
        }),
{
    let raw = if expires >= REFRESH_MARGIN {
        expires - REFRESH_MARGIN
    } else {
        0
    };
    if raw >= MIN_REFRESH_DELAY {
        raw
    } else {
        MIN_REFRESH_DELAY
    }
}

// ---- What is promised of every table ----

/// `row_of` finds the first row of that name.
pub proof fn row_of_is_first(states: Seq<RegistrationState>, name: Seq<char>, from: int)
    requires
        0 <= from <= states.len(),
    ensures
        from <= row_of(states, name, from) <= states.len(),
        row_of(states, name, from) < states.len() ==> states[row_of(states, name, from)].name@
            == name,
        forall|k: int|
            from <= k < row_of(states, name, from) ==> (#[trigger] states[k]).name@ != name,
    decreases states.len() - from,
{
    if from < states.len() && states[from].name@ != name {
        row_of_is_first(states, name, from + 1);
    }
}

/// Seeding keeps the rows that are there.
pub proof fn seeding_keeps_known_rows(
    s: Seq<RegistrationState>,
    t: Seq<RegistrationState>,
    configs: Seq<RegistrationEntry>,
)
    requires
        rows_seeded(s, t, configs),
    ensures
        s.len() <= t.len(),
        t.subrange(0, s.len() as int) == s,
    decreases configs.len(),
{
    if configs.len() == 0 {
        assert(t.subrange(0, s.len() as int) =~= s);
    } else {
        let cfg = configs[0];
        if row_of(s, cfg.name@, 0) < s.len() {
            seeding_keeps_known_rows(s, t, configs.drop_first());
        } else {
            let row = choose|row: RegistrationState|
                #![trigger s.push(row)]
                row.starts(cfg) && rows_seeded(s.push(row), t, configs.drop_first());
            seeding_keeps_known_rows(s.push(row), t, configs.drop_first());
            assert(t.subrange(0, s.len() as int) =~= s) by {
                let u = t.subrange(0, s.push(row).len() as int);
                assert forall|i: int| 0 <= i < s.len() implies t[i] == s[i] by {
                    assert(u[i] == s.push(row)[i]);
                }
            }
        }
    }
}

/// After seeding every block has a row.
pub proof fn every_block_has_a_row(
    s: Seq<RegistrationState>,
    t: Seq<RegistrationState>,
    configs: Seq<RegistrationEntry>,
    i: int,
)
    requires
        rows_seeded(s, t, configs),
        0 <= i < configs.len(),
    ensures
        row_of(t, configs[i].name@, 0) < t.len(),
    decreases configs.len(),
{
    let cfg = configs[0];
    let name = configs[i].name@;
    if row_of(s, cfg.name@, 0) < s.len() {
        if i == 0 {
            seeding_keeps_known_rows(s, t, configs.drop_first());
            row_of_is_first(s, name, 0);
            a_row_is_found(t, name, row_of(s, name, 0));
        } else {
            assert(configs.drop_first()[i - 1] == configs[i]);
            every_block_has_a_row(s, t, configs.drop_first(), i - 1);
        }
    } else {
        let row = choose|row: RegistrationState|
            #![trigger s.push(row)]
            row.starts(cfg) && rows_seeded(s.push(row), t, configs.drop_first());
        if i == 0 {
            seeding_keeps_known_rows(s.push(row), t, configs.drop_first());
            assert(t.subrange(0, s.push(row).len() as int)[s.len() as int] == row);
            a_row_is_found(t, name, s.len() as int);
        } else {
            assert(configs.drop_first()[i - 1] == configs[i]);
            every_block_has_a_row(s.push(row), t, configs.drop_first(), i - 1);
        }
    }
}

proof fn a_row_is_found(t: Seq<RegistrationState>, name: Seq<char>, k: int)
    requires
        0 <= k < t.len(),
        t[k].name@ == name,
    ensures
        row_of(t, name, 0) < t.len(),
{
    row_of_is_first(t, name, 0);
}

/// What is recorded of an attempt is read back; an expiry only of one that
/// succeeded.
pub proof fn an_attempt_is_read_back(
    s: Seq<RegistrationState>,
    name: Seq<char>,
    status: RegistrationStatus,
    last_error: Option<String>,
    expires_at: Option<u64>,
    now: u64,
)
    requires
        row_of(s, name, 0) < s.len(),
    ensures
        ({
            let i = row_of(s, name, 0);
            let t = s.update(i, attempted(s[i], status, last_error, expires_at, now));
            &&& row_of(t, name, 0) == i
            &&& t[i].status == status
            &&& t[i].last_error == last_error
            &&& t[i].last_attempt_at == Some(now)
            &&& t[i].expires_at is Some ==> status == RegistrationStatus::Registered
        }),
{
    let i = row_of(s, name, 0);
    row_of_is_first(s, name, 0);
    let t = s.update(i, attempted(s[i], status, last_error, expires_at, now));
    row_of_is_first(t, name, 0);
    assert(t[i].name@ == name);
    assert forall|k: int| 0 <= k < i implies (#[trigger] t[k]).name@ != name by {
        assert(t[k] == s[k]);
    }
}

/// No two rows share a name.
pub open spec fn names_unique(s: Seq<RegistrationState>) -> bool {
    forall|i: int, j: int|
        0 <= i < j < s.len() ==> (#[trigger] s[i]).name@ != (#[trigger] s[j]).name@
}

/// Seeding keeps the names unique.
pub proof fn seeding_keeps_names_unique(
    s: Seq<RegistrationState>,
    t: Seq<RegistrationState>,
    configs: Seq<RegistrationEntry>,
)
    requires
        rows_seeded(s, t, configs),
        names_unique(s),
    ensures
        names_unique(t),
    decreases configs.len(),
{
    if configs.len() > 0 {
        let cfg = configs[0];
        if row_of(s, cfg.name@, 0) < s.len() {
            seeding_keeps_names_unique(s, t, configs.drop_first());
        } else {
            let row = choose|row: RegistrationState|
                #![trigger s.push(row)]
                row.starts(cfg) && rows_seeded(s.push(row), t, configs.drop_first());
            row_of_is_first(s, cfg.name@, 0);
            seeding_keeps_names_unique(s.push(row), t, configs.drop_first());
        }
    }
}

/// No address stands twice.
pub open spec fn addrs_unique(s: Seq<(SocketAddr, String)>) -> bool {
    forall|i: int, j: int| 0 <= i < j < s.len() ==> (#[trigger] s[i]).0 != (#[trigger] s[j]).0
}

proof fn addr_of_is_first(s: Seq<(SocketAddr, String)>, addr: SocketAddr, from: int)
    requires
        0 <= from <= s.len(),
    ensures
        from <= addr_of(s, addr, from) <= s.len(),
        forall|k: int| from <= k < addr_of(s, addr, from) ==> (#[trigger] s[k]).0 != addr,
    decreases s.len() - from,
{
    if from < s.len() && s[from].0 != addr {
        addr_of_is_first(s, addr, from + 1);
    }
}

/// Seeding keeps the addresses unique.
pub proof fn seeding_keeps_addresses_unique(
    s: Seq<(SocketAddr, String)>,
    configs: Seq<RegistrationEntry>,
)
    requires
        addrs_unique(s),
    ensures
        addrs_unique(addrs_seeded(s, configs)),
    decreases configs.len(),
{
    if configs.len() > 0 {
        let cfg = configs[0];
        if addr_of(s, cfg.server_addr, 0) < s.len() {
            seeding_keeps_addresses_unique(s, configs.drop_first());
        } else {
            addr_of_is_first(s, cfg.server_addr, 0);
            seeding_keeps_addresses_unique(
                s.push((cfg.server_addr, cfg.name)),
                configs.drop_first(),
            );
        }
    }
}

// ---- What is promised of every call ----

/// Each status has a label of its own.
pub proof fn each_status_has_its_label(s: RegistrationStatus, r: &'static str)
    requires
        call_ensures(RegistrationStatus::as_str, (s,), r),
    ensures
        r@ == "pending"@ <==> s is Pending,
        r@ == "registered"@ <==> s is Registered,
        r@ == "failed"@ <==> s is Failed,
        r@ == "disabled"@ <==> s is Disabled,
{
    reveal_strlit("pending");
    reveal_strlit("registered");
    reveal_strlit("failed");
    reveal_strlit("disabled");
    assert("pending"@.len() == 7);
    assert("registered"@.len() == 10);
    assert("failed"@.len() == 6);
    assert("disabled"@.len() == 8);
}

/// What is recorded of an attempt is what is read of that registration next: its status,
/// its error, the time, and its expiry where it succeeded. Its name and its server stay,
/// and so does every other registration. A name that has no row changes nothing.
pub proof fn an_attempt_is_what_is_read_next(
    m: &mut RegistrationManager,
    name: &str,
    status: RegistrationStatus,
    last_error: Option<String>,
    expires_at: Option<u64>,
    now: u64,
    known: bool,
    before: RegistrationManager,
    after: RegistrationManager,
    asked: &str,
    was: Option<RegistrationState>,
    is: Option<RegistrationState>,
)
    requires
        old(m).wf(),
        call_ensures(
            RegistrationManager::set_status,
            (m, name, status, last_error, expires_at, now),
            known,
        ),
        before == *old(m),
        after == *final(m),
        call_ensures(RegistrationManager::get, (&before, asked), was),
        call_ensures(RegistrationManager::get, (&after, asked), is),
    ensures
        was is Some <==> is is Some,
        asked@ == name@ ==> (known <==> was is Some),
        asked@ == name@ && known ==> {
            &&& is->0.name@ == asked@
            &&& is->0.name == was->0.name
            &&& is->0.server_addr == was->0.server_addr
            &&& is->0.status == status
            &&& is->0.last_attempt_at == Some(now)
            &&& is->0.last_error == last_error
            &&& status is Registered ==> is->0.expires_at == expires_at
            &&& !(status is Registered) ==> is->0.expires_at is None
        },
        asked@ != name@ || !known ==> is == was,
{
    let s = before.states@;
    let t = after.states@;
    let i = row_of(s, asked@, 0);
    row_of_is_first(s, asked@, 0);
    row_of_is_first(t, asked@, 0);
    row_of_is_first(s, name@, 0);
    assert(t.len() == s.len());
    assert forall|k: int| 0 <= k < s.len() implies (#[trigger] t[k]).name == s[k].name by {}
    if i < s.len() {
        assert(t[i].name == s[i].name);
        assert forall|k: int| 0 <= k < i implies (#[trigger] t[k]).name@ != asked@ by {
            assert(s[k].name@ != asked@);
        }
        assert(row_of(t, asked@, 0) == i);
    } else {
        let j = row_of(t, asked@, 0);
        if j < t.len() {
            assert(s[j].name@ != asked@);
            assert(t[j].name == s[j].name);
        }
    }
}

/// After seeding an empty table each block has its row: the first block of a name gives the
/// server and whether the row waits for its first attempt or is disabled, and nothing has
/// been attempted. A name that no block has is not found.
pub proof fn a_seeded_block_is_found(
    m: &mut RegistrationManager,
    configs: &[RegistrationEntry],
    after: RegistrationManager,
    asked: &str,
    r: Option<RegistrationState>,
    i: int,
)
    requires
        old(m).wf(),
        old(m).states@.len() == 0,
        call_ensures(RegistrationManager::seed, (m, configs), ()),
        after == *final(m),
        call_ensures(RegistrationManager::get, (&after, asked), r),
    ensures
        0 <= i < configs@.len() && configs@[i].name@ == asked@ && (forall|k: int|
            0 <= k < i ==> (#[trigger] configs@[k]).name@ != asked@) ==> {
            &&& r is Some
            &&& r->0.name == configs@[i].name
            &&& r->0.server_addr == configs@[i].server_addr
            &&& configs@[i].register_on_startup ==> r->0.status is Pending
            &&& !configs@[i].register_on_startup ==> r->0.status is Disabled
            &&& r->0.last_attempt_at is None
            &&& r->0.expires_at is None
            &&& r->0.last_error is None
        },
        (forall|k: int| 0 <= k < configs@.len() ==> (#[trigger] configs@[k]).name@ != asked@)
            ==> r is None,
{
    let s = old(m).states@;
    let t = after.states@;
    row_of_is_first(t, asked@, 0);
    if 0 <= i < configs@.len() && configs@[i].name@ == asked@ && (forall|k: int|
        0 <= k < i ==> (#[trigger] configs@[k]).name@ != asked@) {
        the_first_block_of_a_name_counts(s, t, configs@, i);
    }
    if forall|k: int| 0 <= k < configs@.len() ==> (#[trigger] configs@[k]).name@ != asked@ {
        an_unknown_name_has_no_row(s, t, configs@, asked@);
    }
}

proof fn the_first_block_of_a_name_counts(
    s: Seq<RegistrationState>,
    t: Seq<RegistrationState>,
    configs: Seq<RegistrationEntry>,
    i: int,
)
    requires
        rows_seeded(s, t, configs),
        0 <= i < configs.len(),
        forall|k: int| 0 <= k < i ==> (#[trigger] configs[k]).name@ != configs[i].name@,
        forall|k: int| 0 <= k < s.len() ==> (#[trigger] s[k]).name@ != configs[i].name@,
    ensures
        row_of(t, configs[i].name@, 0) < t.len(),
        t[row_of(t, configs[i].name@, 0)].starts(configs[i]),
    decreases configs.len(),
{
    let cfg = configs[0];
    let name = configs[i].name@;
    let rest = configs.drop_first();
    row_of_is_first(s, cfg.name@, 0);
    if row_of(s, cfg.name@, 0) < s.len() {
        assert(i > 0);
        assert(rest[i - 1] == configs[i]);
        assert forall|k: int| 0 <= k < i - 1 implies (#[trigger] rest[k]).name@
            != rest[i - 1].name@ by {
            assert(rest[k] == configs[k + 1]);
        }
        the_first_block_of_a_name_counts(s, t, rest, i - 1);
    } else {
        let row = choose|row: RegistrationState|
            #![trigger s.push(row)]
            row.starts(cfg) && rows_seeded(s.push(row), t, rest);
        if i == 0 {
            seeding_keeps_known_rows(s.push(row), t, rest);
            let u = t.subrange(0, s.push(row).len() as int);
            assert(u == s.push(row));
            assert(t[s.len() as int] == u[s.len() as int]);
            assert forall|k: int| 0 <= k < s.len() implies (#[trigger] t[k]).name@ != name by {
                assert(u[k] == s[k]);
                assert(u[k] == t[k]);
            }
            row_of_is_first(t, name, 0);
            assert(row_of(t, name, 0) == s.len());
        } else {
            assert(rest[i - 1] == configs[i]);
            assert forall|k: int| 0 <= k < i - 1 implies (#[trigger] rest[k]).name@
                != rest[i - 1].name@ by {
                assert(rest[k] == configs[k + 1]);
            }
            assert(cfg.name@ != name);
            the_first_block_of_a_name_counts(s.push(row), t, rest, i - 1);
        }
    }
}

proof fn an_unknown_name_has_no_row(
    s: Seq<RegistrationState>,
    t: Seq<RegistrationState>,
    configs: Seq<RegistrationEntry>,
    name: Seq<char>,
)
    requires
        rows_seeded(s, t, configs),
        forall|k: int| 0 <= k < configs.len() ==> (#[trigger] configs[k]).name@ != name,
        forall|k: int| 0 <= k < s.len() ==> (#[trigger] s[k]).name@ != name,
    ensures
        row_of(t, name, 0) >= t.len(),
    decreases configs.len(),
{
    if configs.len() == 0 {
        row_of_is_first(t, name, 0);
    } else {
        let cfg = configs[0];
        let rest = configs.drop_first();
        assert forall|k: int| 0 <= k < rest.len() implies (#[trigger] rest[k]).name@ != name by {
            assert(rest[k] == configs[k + 1]);
        }
        if row_of(s, cfg.name@, 0) < s.len() {
            an_unknown_name_has_no_row(s, t, rest, name);
        } else {
            let row = choose|row: RegistrationState|
                #![trigger s.push(row)]
                row.starts(cfg) && rows_seeded(s.push(row), t, rest);
            an_unknown_name_has_no_row(s.push(row), t, rest, name);
        }
    }
}

/// After seeding an empty table a peer is known by the first block that names its address,
/// and a peer that no block names is not known.
pub proof fn a_peer_is_known_by_the_first_block_of_its_address(
    m: &mut RegistrationManager,
    configs: &[RegistrationEntry],
    after: RegistrationManager,
    peer: SocketAddr,
    r: Option<String>,
    i: int,
)
    requires
        old(m).wf(),
        old(m).by_addr@.len() == 0,
        call_ensures(RegistrationManager::seed, (m, configs), ()),
        after == *final(m),
        call_ensures(RegistrationManager::resolve_source, (&after, peer), r),
    ensures
        0 <= i < configs@.len() && configs@[i].server_addr == peer && (forall|k: int|
            0 <= k < i ==> (#[trigger] configs@[k]).server_addr != peer) ==> r == Some(
            configs@[i].name,
        ),
        (forall|k: int| 0 <= k < configs@.len() ==> (#[trigger] configs@[k]).server_addr != peer)
            ==> r is None,
{
    let s = old(m).by_addr@;
    if 0 <= i < configs@.len() && configs@[i].server_addr == peer && (forall|k: int|
        0 <= k < i ==> (#[trigger] configs@[k]).server_addr != peer) {
        the_first_block_of_an_address_counts(s, configs@, peer, i);
    }
    if forall|k: int| 0 <= k < configs@.len() ==> (#[trigger] configs@[k]).server_addr != peer {
        an_unknown_address_has_no_block(s, configs@, peer);
    }
}

proof fn addresses_stay(
    s: Seq<(SocketAddr, String)>,
    configs: Seq<RegistrationEntry>,
    peer: SocketAddr,
)
    requires
        addr_of(s, peer, 0) < s.len(),
    ensures
        addr_of(addrs_seeded(s, configs), peer, 0) < addrs_seeded(s, configs).len(),
        addrs_seeded(s, configs)[addr_of(addrs_seeded(s, configs), peer, 0)] == s[addr_of(
            s,
            peer,
            0,
        )],
    decreases configs.len(),
{
    if configs.len() > 0 {
        let cfg = configs[0];
        let rest = configs.drop_first();
        if addr_of(s, cfg.server_addr, 0) < s.len() {
            addresses_stay(s, rest, peer);
        } else {
            let u = s.push((cfg.server_addr, cfg.name));
            pushing_keeps_the_first(s, u, peer, 0);
            addresses_stay(u, rest, peer);
        }
    }
}

proof fn pushing_keeps_the_first(
    s: Seq<(SocketAddr, String)>,
    u: Seq<(SocketAddr, String)>,
    peer: SocketAddr,
    i: int,
)
    requires
        0 <= i <= s.len(),
        u.len() == s.len() + 1,
        forall|k: int| 0 <= k < s.len() ==> s[k] == #[trigger] u[k],
    ensures
        addr_of(s, peer, i) < s.len() ==> addr_of(u, peer, i) == addr_of(s, peer, i)
            && i <= addr_of(s, peer, i),
        addr_of(s, peer, i) >= s.len() && u[s.len() as int].0 == peer ==> addr_of(u, peer, i)
            == s.len(),
        addr_of(s, peer, i) >= s.len() && u[s.len() as int].0 != peer ==> addr_of(u, peer, i)
            >= u.len(),
    decreases s.len() - i,
{
    reveal_with_fuel(addr_of, 2);
    if i < s.len() {
        assert(s[i] == u[i]);
        if s[i].0 != peer {
            pushing_keeps_the_first(s, u, peer, i + 1);
        }
    }
}

proof fn the_first_block_of_an_address_counts(
    s: Seq<(SocketAddr, String)>,
    configs: Seq<RegistrationEntry>,
    peer: SocketAddr,
    i: int,
)
    requires
        addr_of(s, peer, 0) >= s.len(),
        0 <= i < configs.len(),
        configs[i].server_addr == peer,
        forall|k: int| 0 <= k < i ==> (#[trigger] configs[k]).server_addr != peer,
    ensures
        ({
            let t = addrs_seeded(s, configs);
            addr_of(t, peer, 0) < t.len() && t[addr_of(t, peer, 0)].1 == configs[i].name
        }),
    decreases configs.len(),
{
    let cfg = configs[0];
    let rest = configs.drop_first();
    let u = s.push((cfg.server_addr, cfg.name));
    pushing_keeps_the_first(s, u, peer, 0);
    if i == 0 {
        addresses_stay(u, rest, peer);
    } else {
        assert(rest[i - 1] == configs[i]);
        assert forall|k: int| 0 <= k < i - 1 implies (#[trigger] rest[k]).server_addr != peer by {
            assert(rest[k] == configs[k + 1]);
        }
        assert(cfg.server_addr != peer);
        if addr_of(s, cfg.server_addr, 0) < s.len() {
            the_first_block_of_an_address_counts(s, rest, peer, i - 1);
        } else {
            the_first_block_of_an_address_counts(u, rest, peer, i - 1);
        }
    }
}

proof fn an_unknown_address_has_no_block(
    s: Seq<(SocketAddr, String)>,
    configs: Seq<RegistrationEntry>,
    peer: SocketAddr,
)
    requires
        addr_of(s, peer, 0) >= s.len(),
        forall|k: int| 0 <= k < configs.len() ==> (#[trigger] configs[k]).server_addr != peer,
    ensures
        addr_of(addrs_seeded(s, configs), peer, 0) >= addrs_seeded(s, configs).len(),
    decreases configs.len(),
{
    if configs.len() > 0 {
        let cfg = configs[0];
        let rest = configs.drop_first();
        let u = s.push((cfg.server_addr, cfg.name));
        pushing_keeps_the_first(s, u, peer, 0);
        assert(cfg.server_addr != peer);
        assert forall|k: int| 0 <= k < rest.len() implies (#[trigger] rest[k]).server_addr
            != peer by {
            assert(rest[k] == configs[k + 1]);
        }
        if addr_of(s, cfg.server_addr, 0) < s.len() {
            an_unknown_address_has_no_block(s, rest, peer);
        } else {
            an_unknown_address_has_no_block(u, rest, peer);
        }
    }
}

/// A snapshot has every row, in their order.
pub proof fn a_snapshot_has_every_row(
    m: &RegistrationManager,
    r: Vec<RegistrationState>,
    i: int,
)
    requires
        call_ensures(RegistrationManager::snapshot, (m,), r),
    ensures
        r@.len() == m.states@.len(),
        0 <= i < r@.len() ==> r@[i] == m.states@[i],
{
}

/// A registration is refreshed a minute before it ends, and never within five seconds.
pub proof fn a_registration_is_refreshed_before_it_ends(expires: u64, r: u64)
    requires
        call_ensures(refresh_delay, (expires,), r),
    ensures
        r >= 5_000,
        expires >= 65_000 ==> r + 60_000 == expires,
        expires < 65_000 ==> r == 5_000,
{
}

} // verus!
