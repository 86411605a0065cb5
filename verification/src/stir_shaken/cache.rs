//! TTL cache of fetched signing-certificate chains, by URL.
use vstd::prelude::*;

use crate::stir_shaken::pem::byte_views;
use crate::text::str_eq;

verus! {

struct Entry {
    url: String,
    chain: Vec<Vec<u8>>,
    expires_at: u64,
}

/// What the cache holds for one URL.
#[verifier::ext_equal]
pub struct CachedChain {
    pub chain: Seq<Seq<u8>>,
    pub expires_at: u64,
}

/// Certificate chains by URL, each with the time it expires.
pub struct CertCache {
    entries: Vec<Entry>,
}

spec fn held(entries: Seq<Entry>) -> Map<Seq<char>, CachedChain>
    decreases entries.len(),
{
    if entries.len() == 0 {
        Map::empty()
    } else {
        held(entries.drop_last()).insert(
            entries.last().url@,
            CachedChain {
                chain: byte_views(entries.last().chain@),
                expires_at: entries.last().expires_at,
            },
        )
    }
}

spec fn urls_unique(entries: Seq<Entry>) -> bool {
    forall|i: int, j: int| 0 <= i < j < entries.len() ==> entries[i].url@ != entries[j].url@
}

spec fn cached(e: Entry) -> CachedChain {
    CachedChain { chain: byte_views(e.chain@), expires_at: e.expires_at }
}

impl View for CertCache {
    type V = Map<Seq<char>, CachedChain>;

    closed spec fn view(&self) -> Map<Seq<char>, CachedChain> {
        held(self.entries@)
    }
}

proof fn held_facts(entries: Seq<Entry>)
    requires
        urls_unique(entries),
    ensures
        forall|i: int| #![trigger entries[i]]
            0 <= i < entries.len() ==> held(entries).dom().contains(entries[i].url@)
                && held(entries)[entries[i].url@] == cached(entries[i]),
        forall|u: Seq<char>| #[trigger]
            held(entries).dom().contains(u) ==> exists|i: int|
                0 <= i < entries.len() && (#[trigger] entries[i]).url@ == u,
    decreases entries.len(),
{
    if entries.len() > 0 {
        let front = entries.drop_last();
        assert forall|i: int, j: int| 0 <= i < j < front.len() implies front[i].url@ != front[j].url@ by {
            assert(front[i] == entries[i] && front[j] == entries[j]);
        }
        held_facts(front);
        assert forall|i: int| #![trigger entries[i]] 0 <= i < entries.len() implies held(
            entries,
        ).dom().contains(entries[i].url@) && held(entries)[entries[i].url@] == cached(
            entries[i],
        ) by {
            if i < front.len() {
                assert(front[i] == entries[i]);
                assert(entries[i].url@ != entries[entries.len() - 1].url@);
            }
        }
        assert forall|u: Seq<char>| #[trigger] held(entries).dom().contains(u) implies exists|i: int|
            0 <= i < entries.len() && (#[trigger] entries[i]).url@ == u by {
            if u == entries.last().url@ {
                assert(entries[entries.len() - 1].url@ == u);
            } else {
                assert(held(front).dom().contains(u));
                let i = choose|i: int| 0 <= i < front.len() && (#[trigger] front[i]).url@ == u;
                assert(entries[i].url@ == u);
            }
        }
    }
}

proof fn held_after_remove(entries: Seq<Entry>, i: int)
    requires
        urls_unique(entries),
        0 <= i < entries.len(),
    ensures
        urls_unique(entries.remove(i)),
        held(entries.remove(i)) == held(entries).remove(entries[i].url@),
{
    let rest = entries.remove(i);
    assert forall|a: int, b: int| 0 <= a < b < rest.len() implies rest[a].url@ != rest[b].url@ by {
        let a2 = if a < i {
            a
        } else {
            a + 1
        };
        let b2 = if b < i {
            b
        } else {
            b + 1
        };
        assert(rest[a] == entries[a2] && rest[b] == entries[b2]);
    }
    held_facts(entries);
    held_facts(rest);
    let want = held(entries).remove(entries[i].url@);
    assert forall|u: Seq<char>| held(rest).dom().contains(u) <==> want.dom().contains(u) by {
        if held(rest).dom().contains(u) {
            let a = choose|a: int| 0 <= a < rest.len() && (#[trigger] rest[a]).url@ == u;
            let a2 = if a < i {
                a
            } else {
                a + 1
            };
            assert(rest[a] == entries[a2]);
        }
        if want.dom().contains(u) {
            let a = choose|a: int| 0 <= a < entries.len() && (#[trigger] entries[a]).url@ == u;
            let a2 = if a < i {
                a
            } else {
                a - 1
            };
            assert(rest[a2] == entries[a]);
        }
    }
    assert forall|u: Seq<char>| held(rest).dom().contains(u) implies held(rest)[u] == want[u] by {
        let a = choose|a: int| 0 <= a < rest.len() && (#[trigger] rest[a]).url@ == u;
        let a2 = if a < i {
            a
        } else {
            a + 1
        };
        assert(rest[a] == entries[a2]);
    }
    assert(held(rest) =~= want);
}

/// A copy of a chain.
pub fn copy_chain(chain: &Vec<Vec<u8>>) -> (r: Vec<Vec<u8>>)
    ensures
        byte_views(r@) == byte_views(chain@),
{
    let mut r: Vec<Vec<u8>> = Vec::new();
    let mut i: usize = 0;
    while i < chain.len()
        invariant
            i <= chain@.len(),
            byte_views(r@) == byte_views(chain@).subrange(0, i as int),
        decreases chain@.len() - i,
    {
        let ghost before = r@;
        r.push(vstd::slice::slice_to_vec(chain[i].as_slice()));
        assert(byte_views(r@) =~= byte_views(before).push(chain@[i as int]@));
        assert(byte_views(chain@).subrange(0, i + 1) =~= byte_views(chain@).subrange(
            0,
            i as int,
        ).push(chain@[i as int]@));
        i += 1;
    }
    assert(byte_views(chain@).subrange(0, i as int) =~= byte_views(chain@));
    r
}

impl CertCache {
    /// Each URL has at most one entry.
    pub closed spec fn wf(self) -> bool {
        urls_unique(self.entries@)
    }

    pub fn new() -> (r: Self)
        ensures
            r.wf(),
            r@ == Map::<Seq<char>, CachedChain>::empty(),
    {
        CertCache { entries: Vec::new() }
    }

    /// The index of `url`, or the number of entries.
    fn find(&self, url: &str) -> (r: usize)
        requires
            self.wf(),
        ensures
            r <= self.entries@.len(),
            r < self.entries@.len() ==> self.entries@[r as int].url@ == url@,
            r == self.entries@.len() ==> !self@.dom().contains(url@),
    {
        let mut i: usize = 0;
        while i < self.entries.len()
            invariant
                i <= self.entries@.len(),
                forall|k: int| 0 <= k < i ==> (#[trigger] self.entries@[k]).url@ != url@,
            decreases self.entries@.len() - i,
        {
            if str_eq(self.entries[i].url.as_str(), url) {
                return i;
            }
            i += 1;
        }
        proof {
            held_facts(self.entries@);
        }
        i
    }

    /// The cached chain for `url` if it expires after `now`. An expired entry is
    /// evicted on access.
    pub fn get(&mut self, url: &str, now: u64) -> (r: Option<Vec<Vec<u8>>>)
        requires
            old(self).wf(),
        ensures
            final(self).wf(),
            if old(self)@.dom().contains(url@) && old(self)@[url@].expires_at > now {
                &&& r is Some
                &&& byte_views(r->0@) == old(self)@[url@].chain
                &&& final(self)@ == old(self)@
            } else {
                &&& r is None
                &&& final(self)@ == old(self)@.remove(url@)
            },
    {
        let i = self.find(url);
        proof {
            held_facts(self.entries@);
        }
        if i >= self.entries.len() {
            assert(self@.remove(url@) =~= self@);
            return None;
        }
        if self.entries[i].expires_at > now {
            return Some(copy_chain(&self.entries[i].chain));
        }
        proof {
            held_after_remove(self.entries@, i as int);
        }
        self.entries.remove(i);
        None
    }

    /// Insert (or replace) the chain for `url`, expiring at `expires_at`.
    pub fn insert(&mut self, url: String, chain: Vec<Vec<u8>>, expires_at: u64)
        requires
            old(self).wf(),
        ensures
            final(self).wf(),
            final(self)@ == old(self)@.insert(
                url@,
                CachedChain { chain: byte_views(chain@), expires_at },
            ),
    {
        let ghost before = self@;
        let i = self.find(url.as_str());
        if i < self.entries.len() {
            proof {
                held_after_remove(self.entries@, i as int);
            }
            self.entries.remove(i);
        } else {
            assert(before.remove(url@) =~= before);
        }
        let ghost rest = self.entries@;
        proof {
            held_facts(rest);
        }
        self.entries.push(Entry { url, chain, expires_at });
        assert(self.entries@.drop_last() =~= rest);
        assert(urls_unique(self.entries@)) by {
            assert forall|a: int, b: int| 0 <= a < b < self.entries@.len() implies self.entries@[a].url@ != self.entries@[b].url@ by {
                assert(self.entries@[a] == rest[a]);
                if b < rest.len() {
                    assert(self.entries@[b] == rest[b]);
                } else {
                    assert(held(rest).dom().contains(rest[a].url@));
                }
            }
        }
        assert(self@ =~= before.insert(
            url@,
            CachedChain { chain: byte_views(chain@), expires_at },
        ));
    }
}

/// What was inserted is what a lookup before its expiry gives back, and nothing is
/// given back from its expiry on.
pub proof fn a_chain_lives_until_it_expires(
    cache: Map<Seq<char>, CachedChain>,
    url: Seq<char>,
    entry: CachedChain,
    now: u64,
)
    ensures
        cache.insert(url, entry).dom().contains(url),
        cache.insert(url, entry)[url] == entry,
        now < entry.expires_at <==> cache.insert(url, entry)[url].expires_at > now,
{
}

/// What was put into a cache is what a lookup of its URL gives back, certificate by
/// certificate, until it expires, and never from then on; every other URL is answered as
/// it was before.
pub proof fn a_chain_is_given_back_until_it_expires(
    cache: &mut CertCache,
    url: String,
    chain: Vec<Vec<u8>>,
    expires_at: u64,
    after: &mut CertCache,
    asked: &str,
    now: u64,
    r: Option<Vec<Vec<u8>>>,
    before: &mut CertCache,
    s: Option<Vec<Vec<u8>>>,
)
    requires
        old(cache).wf(),
        call_ensures(CertCache::insert, (cache, url, chain, expires_at), ()),
        *old(after) == *final(cache),
        call_ensures(CertCache::get, (after, asked, now), r),
        *old(before) == *old(cache),
        call_ensures(CertCache::get, (before, asked, now), s),
    ensures
        asked@ == url@ ==> (r is Some <==> now < expires_at),
        asked@ == url@ && r is Some ==> r->0@.len() == chain@.len() && forall|i: int|
            0 <= i < chain@.len() ==> (#[trigger] r->0@[i])@ == chain@[i]@,
        asked@ != url@ ==> (r is Some <==> s is Some),
        asked@ != url@ && r is Some ==> r->0@.len() == s->0@.len() && forall|i: int|
            0 <= i < s->0@.len() ==> (#[trigger] r->0@[i])@ == s->0@[i]@,
{
    if r is Some {
        let got = byte_views(r->0@);
        assert(got.len() == r->0@.len());
        assert forall|i: int| 0 <= i < r->0@.len() implies (#[trigger] r->0@[i])@ == got[i] by {}
        if asked@ == url@ {
            let want = byte_views(chain@);
            assert(want.len() == chain@.len());
            assert forall|i: int| 0 <= i < chain@.len() implies (#[trigger] r->0@[i])@
                == chain@[i]@ by {
                assert(got[i] == want[i]);
            }
        } else {
            let want = byte_views(s->0@);
            assert(want.len() == s->0@.len());
            assert forall|i: int| 0 <= i < s->0@.len() implies (#[trigger] r->0@[i])@
                == s->0@[i]@ by {
                assert(got[i] == want[i]);
            }
        }
    }
}

/// A chain that was too old once is gone: the next lookup finds nothing, even were the
/// clock set back. One that is alive stays, and a new cache has none.
pub proof fn an_expired_chain_is_gone(
    cache: &mut CertCache,
    url: &str,
    now: u64,
    r: Option<Vec<Vec<u8>>>,
    after: &mut CertCache,
    later: u64,
    s: Option<Vec<Vec<u8>>>,
    fresh: CertCache,
    empty: &mut CertCache,
    t: Option<Vec<Vec<u8>>>,
)
    requires
        old(cache).wf(),
        call_ensures(CertCache::get, (cache, url, now), r),
        *old(after) == *final(cache),
        call_ensures(CertCache::get, (after, url, later), s),
        call_ensures(CertCache::new, (), fresh),
        *old(empty) == fresh,
        call_ensures(CertCache::get, (empty, url, now), t),
    ensures
        r is None ==> s is None,
        r is Some && later <= now ==> s is Some,
        t is None,
{
}

} // verus!
