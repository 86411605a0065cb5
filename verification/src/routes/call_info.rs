//! What the matcher evaluates a route against.
use vstd::prelude::*;

use crate::text::{lower, str_eq, to_ascii_lowercase, views};

verus! {

/// Inbound headers by name. Names are case-insensitive: they are kept in
/// lower case, each at most once.
#[derive(Debug)]
pub struct Headers {
    entries: Vec<(String, String)>,
}

/// The name of each entry.
spec fn names(entries: Seq<(String, String)>) -> Seq<Seq<char>> {
    Seq::new(entries.len(), |i: int| entries[i].0@)
}

/// The entries as a map from name to value.
spec fn as_map(entries: Seq<(String, String)>) -> Map<Seq<char>, Seq<char>> {
    Map::new(
        |k: Seq<char>| names(entries).contains(k),
        |k: Seq<char>| entries[names(entries).index_of(k)].1@,
    )
}

impl Headers {
    #[verifier::type_invariant]
    spec fn wf(self) -> bool {
        names(self.entries@).no_duplicates()
    }

    /// The value of each name; every name is in lower case.
    pub closed spec fn view(self) -> Map<Seq<char>, Seq<char>> {
        as_map(self.entries@)
    }

    /// No headers.
    pub fn new() -> (r: Self)
        ensures
            r@ == Map::<Seq<char>, Seq<char>>::empty(),
    {
        let entries: Vec<(String, String)> = Vec::new();
        assert(as_map(entries@) =~= Map::empty());
        Headers { entries }
    }

    /// Sets the header `name`, whatever its case, to `value`. The last write wins.
    pub fn insert(&mut self, name: &str, value: &str)
        ensures
            final(self)@ == old(self)@.insert(lower(name@), value@),
            old(self)@.dom().finite(),
            final(self)@.dom().finite(),
            final(self)@.len() == old(self)@.len() + (if old(self)@.dom().contains(lower(name@)) {
                0nat
            } else {
                1
            }),
    {
        proof {
            use_type_invariant(&*self);
            entries_count(self.entries@);
        }
        let key = to_ascii_lowercase(name);
        let ghost before = self.entries@;
        let mut entries: Vec<(String, String)> = Vec::new();
        std::mem::swap(&mut entries, &mut self.entries);
        let i = position(&entries, key.as_str());
        if i < entries.len() {
            entries.set(i, (key, value.to_owned()));
            proof {
                assert(names(entries@) =~= names(before));
            }
        } else {
            entries.push((key, value.to_owned()));
            proof {
                assert(names(entries@) =~= names(before).push(key@));
            }
        }
        proof {
            let now = as_map(entries@);
            let then = as_map(before).insert(key@, value@);
            assert forall|k: Seq<char>| now.dom().contains(k) == then.dom().contains(k) by {
                if then.dom().contains(k) {
                    if k == key@ {
                        assert(names(entries@)[i as int] == k);
                    } else {
                        let j = names(before).index_of(k);
                        assert(names(entries@)[j] == k);
                    }
                }
                if now.dom().contains(k) && k != key@ {
                    let j = names(entries@).index_of(k);
                    assert(names(before)[j] == k);
                }
            }
            assert forall|k: Seq<char>| #[trigger] now.dom().contains(k) implies now[k] == then[k] by {
                let j = names(entries@).index_of(k);
                assert(names(entries@)[j] == k);
                if k == key@ {
                    assert(names(entries@)[i as int] == k);
                    assert(j == i);
                } else {
                    assert(names(before)[j] == k);
                    assert(names(before).index_of(k) == j);
                }
            }
            assert(now =~= then);
        }
        self.entries = entries;
    }

    /// The value of the header `name`, whatever its case.
    pub fn get(&self, name: &str) -> (r: Option<&str>)
        ensures
            match r {
                Some(v) => self@.dom().contains(lower(name@)) && v@ == self@[lower(name@)],
                None => !self@.dom().contains(lower(name@)),
            },
    {
        proof {
            use_type_invariant(self);
        }
        let key = to_ascii_lowercase(name);
        let i = position(&self.entries, key.as_str());
        if i < self.entries.len() {
            proof {
                assert(names(self.entries@)[i as int] == key@);
                assert(names(self.entries@).index_of(key@) == i);
            }
            Some(self.entries[i].1.as_str())
        } else {
            proof {
                if names(self.entries@).contains(key@) {
                    let j = names(self.entries@).index_of(key@);
                    assert(self.entries@[j].0@ == key@);
                }
            }
            None
        }
    }

    /// Whether there is no header at all.
    pub fn is_empty(&self) -> (r: bool)
        ensures
            r == (self@.len() == 0),
    {
        proof {
            use_type_invariant(self);
            entries_count(self.entries@);
        }
        self.entries.len() == 0
    }

    /// How many headers there are.
    pub fn len(&self) -> (r: usize)
        ensures
            r == self@.len(),
            self@.dom().finite(),
    {
        proof {
            use_type_invariant(self);
            entries_count(self.entries@);
        }
        self.entries.len()
    }
}

impl Default for Headers {
    fn default() -> (r: Self)
        ensures
            r@ == Map::<Seq<char>, Seq<char>>::empty(),
    {
        Headers::new()
    }
}

impl Clone for Headers {
    fn clone(&self) -> (r: Self)
        ensures
            r@ == self@,
    {
        proof {
            use_type_invariant(self);
        }
        let mut entries: Vec<(String, String)> = Vec::new();
        let mut i: usize = 0;
        while i < self.entries.len()
            invariant
                i == entries@.len(),
                i <= self.entries@.len(),
                entries@ == self.entries@.subrange(0, i as int),
            decreases self.entries@.len() - i,
        {
            entries.push((self.entries[i].0.clone(), self.entries[i].1.clone()));
            i += 1;
        }
        assert(entries@ =~= self.entries@);
        Headers { entries }
    }
}

proof fn entries_count(entries: Seq<(String, String)>)
    requires
        names(entries).no_duplicates(),
    ensures
        as_map(entries).len() == entries.len(),
        as_map(entries).dom().finite(),
{
    names(entries).unique_seq_to_set();
    vstd::seq_lib::seq_to_set_is_finite(names(entries));
    assert(as_map(entries).dom() =~= names(entries).to_set());
}

/// The index of the entry named `key`; the length when there is none.
fn position(entries: &Vec<(String, String)>, key: &str) -> (i: usize)
    ensures
        i <= entries@.len(),
        i < entries@.len() ==> entries@[i as int].0@ == key@,
        i == entries@.len() ==> forall|k: int|
            0 <= k < entries@.len() ==> (#[trigger] entries@[k]).0@ != key@,
{
    let mut i: usize = 0;
    while i < entries.len()
        invariant
            i <= entries@.len(),
            forall|k: int| 0 <= k < i ==> (#[trigger] entries@[k]).0@ != key@,
        decreases entries@.len() - i,
    {
        if str_eq(entries[i].0.as_str(), key) {
            return i;
        }
        i += 1;
    }
    i
}

/// Everything a route's match block can ask about.
///
/// A field that a request lacks is the empty string. `register_source` is
/// `"trunk"` for a call that came through no registration, otherwise the name of
/// the registration. `peer_cert_names` are the names that the verified client
/// certificate asserts; none when no certificate was verified.
#[derive(Debug, Clone)]
pub struct CallInfo<'a> {
    pub request_uri_user: &'a str,
    pub request_uri_host: &'a str,
    pub to_user: &'a str,
    pub to_host: &'a str,
    pub from_user: &'a str,
    pub from_host: &'a str,
    pub register_source: &'a str,
    pub peer_cert_names: &'a [String],
    pub headers: &'a Headers,
}

/// What a call presents to the matcher.
#[verifier::ext_equal]
pub struct InfoView {
    pub request_uri_user: Seq<char>,
    pub request_uri_host: Seq<char>,
    pub to_user: Seq<char>,
    pub to_host: Seq<char>,
    pub from_user: Seq<char>,
    pub from_host: Seq<char>,
    pub register_source: Seq<char>,
    pub peer_cert_names: Seq<Seq<char>>,
    pub headers: Map<Seq<char>, Seq<char>>,
}

impl<'a> View for CallInfo<'a> {
    type V = InfoView;

    open spec fn view(&self) -> InfoView {
        InfoView {
            request_uri_user: self.request_uri_user@,
            request_uri_host: self.request_uri_host@,
            to_user: self.to_user@,
            to_host: self.to_host@,
            from_user: self.from_user@,
            from_host: self.from_host@,
            register_source: self.register_source@,
            peer_cert_names: views(self.peer_cert_names@),
            headers: self.headers@,
        }
    }
}

/// A header that was set is found under its name in any case, with the value as it was
/// given; every other lookup is as it was; and there is one header more only where the
/// name was new.
pub proof fn a_header_is_found_in_any_case(
    headers: Map<Seq<char>, Seq<char>>,
    set: Seq<char>,
    value: Seq<char>,
    asked: Seq<char>,
)
    requires
        headers.dom().finite(),
    ensures
        ({
            let after = headers.insert(lower(set), value);
            &&& lower(asked) == lower(set) ==> after.dom().contains(lower(asked))
                && after[lower(asked)] == value
            &&& lower(asked) != lower(set) ==> after.dom().contains(lower(asked))
                == headers.dom().contains(lower(asked))
            &&& lower(asked) != lower(set) && headers.dom().contains(lower(asked))
                ==> after[lower(asked)] == headers[lower(asked)]
            &&& after.dom().finite()
            &&& after.len() == headers.len() + (if headers.dom().contains(lower(set)) {
                0nat
            } else {
                1
            })
        }),
{
    if headers.dom().contains(lower(set)) {
        assert(headers.insert(lower(set), value).dom() =~= headers.dom());
    }
}

/// A header that was set is what is read under its name in any case, and every other header
/// is read as before.
pub proof fn a_header_that_was_set_is_read(
    h: &mut Headers,
    name: &str,
    value: &str,
    before: Headers,
    after: Headers,
    asked: &str,
    was: Option<&str>,
    is: Option<&str>,
)
    requires
        call_ensures(Headers::insert, (h, name, value), ()),
        before == *old(h),
        after == *final(h),
        call_ensures(Headers::get, (&before, asked), was),
        call_ensures(Headers::get, (&after, asked), is),
    ensures
        lower(asked@) == lower(name@) ==> is is Some && is->0@ == value@,
        lower(asked@) != lower(name@) ==> (is is Some <==> was is Some) && (was is Some
            ==> is->0@ == was->0@),
{
}

/// There is one header more only where its name is new; a new collection has none.
pub proof fn headers_are_counted_by_name(
    h: &mut Headers,
    name: &str,
    value: &str,
    before: Headers,
    after: Headers,
    found: Option<&str>,
    n: usize,
    m: usize,
    none: bool,
    fresh: Headers,
    empty: bool,
)
    requires
        call_ensures(Headers::insert, (h, name, value), ()),
        before == *old(h),
        after == *final(h),
        call_ensures(Headers::get, (&before, name), found),
        call_ensures(Headers::len, (&before,), n),
        call_ensures(Headers::len, (&after,), m),
        call_ensures(Headers::is_empty, (&after,), none),
        call_ensures(Headers::new, (), fresh),
        call_ensures(Headers::is_empty, (&fresh,), empty),
    ensures
        found is Some ==> m == n,
        found is None ==> m == n + 1,
        none <==> m == 0,
        empty,
{
}

} // verus!
