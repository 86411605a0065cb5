//! SIP requests and responses as plain values.
//!
//! The SIP stack parses and prints messages; what routing reads of a request is
//! here, and what it has to say in a response.
use vstd::prelude::*;

use crate::text::{eq_ignore_ascii_case, lower};

verus! {

/// The parts of a `sip:` URI that routing reads.
#[derive(Debug)]
pub struct SipUri {
    pub user: Option<String>,
    pub host: String,
}

/// A request, as the SIP stack parsed it.
///
/// `uri`, `from` and `to` are `None` where the request URI, or the address in the
/// header, is missing, malformed or no SIP URI. `peer_cert_names` are the names
/// that the connection's verified client certificate asserts.
#[derive(Debug)]
pub struct Request {
    pub uri: Option<SipUri>,
    pub from: Option<SipUri>,
    pub to: Option<SipUri>,
    pub headers: Vec<(String, String)>,
    pub peer_cert_names: Vec<String>,
}

/// A final response: what it adds to the stack's own headers, and what it
/// repeats of the request.
#[derive(Debug)]
pub struct Response {
    pub code: u16,
    pub reason: String,
    pub headers: Vec<(String, String)>,
}

/// The views of a list of headers.
pub open spec fn header_views(h: Seq<(String, String)>) -> Seq<(Seq<char>, Seq<char>)> {
    Seq::new(h.len(), |i: int| (h[i].0@, h[i].1@))
}

/// The value of the first header called `name`, whatever its case.
pub open spec fn header_of(h: Seq<(Seq<char>, Seq<char>)>, name: Seq<char>) -> Option<Seq<char>>
    decreases h.len(),
{
    if h.len() == 0 {
        None
    } else if lower(h[0].0) == lower(name) {
        Some(h[0].1)
    } else {
        header_of(h.drop_first(), name)
    }
}

/// Every header called `name`, in order.
pub open spec fn headers_called(h: Seq<(Seq<char>, Seq<char>)>, name: Seq<char>) -> Seq<
    (Seq<char>, Seq<char>),
>
    decreases h.len(),
{
    if h.len() == 0 {
        seq![]
    } else if lower(h[0].0) == lower(name) {
        seq![(name, h[0].1)] + headers_called(h.drop_first(), name)
    } else {
        headers_called(h.drop_first(), name)
    }
}

/// The header called `name`, if there is one.
pub open spec fn one_header(h: Seq<(Seq<char>, Seq<char>)>, name: Seq<char>) -> Seq<
    (Seq<char>, Seq<char>),
> {
    match header_of(h, name) {
        Some(v) => seq![(name, v)],
        None => seq![],
    }
}

/// What a response repeats of its request: every `Via`, then `From`, `To`,
/// `Call-ID` and `CSeq`.
pub open spec fn correlation(h: Seq<(Seq<char>, Seq<char>)>) -> Seq<(Seq<char>, Seq<char>)> {
    headers_called(h, "Via"@) + one_header(h, "From"@) + one_header(h, "To"@) + one_header(
        h,
        "Call-ID"@,
    ) + one_header(h, "CSeq"@)
}

fn find(h: &Vec<(String, String)>, name: &str) -> (r: Option<usize>)
    ensures
        match r {
            Some(i) => i < h@.len() && header_of(header_views(h@), name@) == Some(
                h@[i as int].1@,
            ),
            None => header_of(header_views(h@), name@) is None,
        },
{
    let ghost all = header_views(h@);
    assert(all.subrange(0, all.len() as int) =~= all);
    let mut i: usize = 0;
    while i < h.len()
        invariant
            i <= h@.len(),
            all == header_views(h@),
            header_of(all, name@) == header_of(all.subrange(i as int, all.len() as int), name@),
        decreases h@.len() - i,
    {
        let ghost rest = all.subrange(i as int, all.len() as int);
        assert(rest[0] == all[i as int]);
        if eq_ignore_ascii_case(h[i].0.as_str(), name) {
            return Some(i);
        }
        assert(rest.drop_first() =~= all.subrange(i + 1, all.len() as int));
        i += 1;
    }
    None
}

impl Request {
    /// The value of a header.
    pub open spec fn value_of(self, name: Seq<char>) -> Option<Seq<char>> {
        header_of(header_views(self.headers@), name)
    }

    /// The value of the first header called `name`, whatever its case.
    pub fn header(&self, name: &str) -> (r: Option<&str>)
        ensures
            match r {
                Some(v) => self.value_of(name@) == Some(v@),
                None => self.value_of(name@) is None,
            },
    {
        match find(&self.headers, name) {
            Some(i) => Some(self.headers[i].1.as_str()),
            None => None,
        }
    }

    /// The `Call-ID`, empty when the header is missing.
    pub open spec fn call_id_text(self) -> Seq<char> {
        match self.value_of("Call-ID"@) {
            Some(v) => v,
            None => seq![],
        }
    }

    /// The `Call-ID`, empty when the header is missing.
    pub fn call_id(&self) -> (r: String)
        ensures
            r@ == self.call_id_text(),
    {
        match self.header("Call-ID") {
            Some(v) => v.to_owned(),
            None => {
                let r = String::new();
                assert(r@ =~= seq![]);
                r
            },
        }
    }
}

fn push_one(out: &mut Vec<(String, String)>, request: &Request, name: &str)
    ensures
        header_views(final(out)@) == header_views(old(out)@) + one_header(
            header_views(request.headers@),
            name@,
        ),
{
    let ghost before = out@;
    if let Some(v) = request.header(name) {
        out.push((name.to_owned(), v.to_owned()));
    }
    assert(header_views(out@) =~= header_views(before) + one_header(
        header_views(request.headers@),
        name@,
    ));
}

fn push_all(out: &mut Vec<(String, String)>, request: &Request, name: &str)
    ensures
        header_views(final(out)@) == header_views(old(out)@) + headers_called(
            header_views(request.headers@),
            name@,
        ),
{
    let h = &request.headers;
    let ghost all = header_views(h@);
    let ghost start = header_views(out@);
    assert(all.subrange(0, all.len() as int) =~= all);
    let mut i: usize = 0;
    while i < h.len()
        invariant
            i <= h@.len(),
            all == header_views(h@),
            start + headers_called(all, name@) == header_views(out@) + headers_called(
                all.subrange(i as int, all.len() as int),
                name@,
            ),
        decreases h@.len() - i,
    {
        let ghost rest = all.subrange(i as int, all.len() as int);
        let ghost before = out@;
        assert(rest[0] == all[i as int]);
        assert(rest.drop_first() =~= all.subrange(i + 1, all.len() as int));
        if eq_ignore_ascii_case(h[i].0.as_str(), name) {
            out.push((name.to_owned(), h[i].1.clone()));
            assert(header_views(out@) =~= header_views(before) + seq![(name@, rest[0].1)]);
            assert(header_views(before) + (seq![(name@, rest[0].1)] + headers_called(
                rest.drop_first(),
                name@,
            )) =~= header_views(out@) + headers_called(rest.drop_first(), name@));
        }
        i += 1;
    }
    assert(headers_called(all.subrange(i as int, all.len() as int), name@) =~= seq![]);
    assert(header_views(out@) + seq![] =~= header_views(out@));
}

impl Response {
    /// The value of a header.
    pub open spec fn value_of(self, name: Seq<char>) -> Option<Seq<char>> {
        header_of(header_views(self.headers@), name)
    }

    /// The response is `code reason`, repeats what correlates it with `request`,
    /// and adds `extra`.
    pub open spec fn answers(
        self,
        request: Request,
        code: u16,
        reason: Seq<char>,
        extra: Seq<(Seq<char>, Seq<char>)>,
    ) -> bool {
        &&& self.code == code
        &&& self.reason@ == reason
        &&& header_views(self.headers@) == correlation(header_views(request.headers@)) + extra
    }

    /// A response to `request`.
    pub fn create_response(request: &Request, code: u16, reason: &str) -> (r: Response)
        ensures
            r.answers(*request, code, reason@, seq![]),
    {
        let mut headers: Vec<(String, String)> = Vec::new();
        let ghost h = header_views(request.headers@);
        assert(header_views(headers@) =~= seq![]);
        push_all(&mut headers, request, "Via");
        push_one(&mut headers, request, "From");
        push_one(&mut headers, request, "To");
        push_one(&mut headers, request, "Call-ID");
        push_one(&mut headers, request, "CSeq");
        assert(header_views(headers@) =~= correlation(h) + seq![]);
        Response { code, reason: reason.to_owned(), headers }
    }

    /// The same response with one more header.
    pub fn with_header(self, name: &str, value: String) -> (r: Response)
        ensures
            r.code == self.code,
            r.reason == self.reason,
            header_views(r.headers@) == header_views(self.headers@) + seq![(name@, value@)],
    {
        let mut headers = self.headers;
        headers.push((name.to_owned(), value));
        assert(header_views(headers@) =~= header_views(self.headers@) + seq![(name@, value@)]);
        Response { code: self.code, reason: self.reason, headers }
    }

    /// The status code.
    pub fn code(&self) -> (r: u16)
        ensures
            r == self.code,
    {
        self.code
    }

    /// The reason phrase.
    pub fn reason(&self) -> (r: &str)
        ensures
            r@ == self.reason@,
    {
        self.reason.as_str()
    }

    /// The value of the first header called `name`, whatever its case.
    pub fn header(&self, name: &str) -> (r: Option<&str>)
        ensures
            match r {
                Some(v) => self.value_of(name@) == Some(v@),
                None => self.value_of(name@) is None,
            },
    {
        match find(&self.headers, name) {
            Some(i) => Some(self.headers[i].1.as_str()),
            None => None,
        }
    }
}

/// A response repeats the `Call-ID` of its request, so that the caller can tell
/// what it answers.
pub proof fn a_response_keeps_the_call_id(
    request: Request,
    response: Response,
    code: u16,
    reason: Seq<char>,
    extra: Seq<(Seq<char>, Seq<char>)>,
)
    requires
        response.answers(request, code, reason, extra),
        request.value_of("Call-ID"@) is Some,
    ensures
        response.value_of("Call-ID"@) == request.value_of("Call-ID"@),
{
    let h = header_views(request.headers@);
    let via = headers_called(h, "Via"@);
    let front = via + one_header(h, "From"@) + one_header(h, "To"@);
    let back = one_header(h, "CSeq"@) + extra;
    names_are_distinct();
    via_has_no_other_name(h, "Call-ID"@);
    assert forall|i: int| 0 <= i < front.len() implies lower((#[trigger] front[i]).0) != lower(
        "Call-ID"@,
    ) by {
        if i < via.len() {
            assert(front[i] == via[i]);
        }
    }
    assert(header_views(response.headers@) =~= front + (seq![
        ("Call-ID"@, h_value(h, "Call-ID"@)),
    ] + back));
    skip_others(front, seq![("Call-ID"@, h_value(h, "Call-ID"@))] + back, "Call-ID"@);
}

spec fn h_value(h: Seq<(Seq<char>, Seq<char>)>, name: Seq<char>) -> Seq<char> {
    header_of(h, name).unwrap()
}

proof fn skip_others(
    front: Seq<(Seq<char>, Seq<char>)>,
    rest: Seq<(Seq<char>, Seq<char>)>,
    name: Seq<char>,
)
    requires
        forall|i: int| 0 <= i < front.len() ==> lower((#[trigger] front[i]).0) != lower(name),
    ensures
        header_of(front + rest, name) == header_of(rest, name),
    decreases front.len(),
{
    if front.len() == 0 {
        assert(front + rest =~= rest);
    } else {
        assert((front + rest)[0] == front[0]);
        assert((front + rest).drop_first() =~= front.drop_first() + rest);
        assert forall|i: int| 0 <= i < front.drop_first().len() implies lower(
            (#[trigger] front.drop_first()[i]).0,
        ) != lower(name) by {
            assert(front.drop_first()[i] == front[i + 1]);
        }
        skip_others(front.drop_first(), rest, name);
    }
}

proof fn via_has_no_other_name(h: Seq<(Seq<char>, Seq<char>)>, name: Seq<char>)
    requires
        lower("Via"@) != lower(name),
    ensures
        forall|i: int|
            0 <= i < headers_called(h, "Via"@).len() ==> lower(
                (#[trigger] headers_called(h, "Via"@)[i]).0,
            ) != lower(name),
    decreases h.len(),
{
    if h.len() > 0 {
        let rest = headers_called(h.drop_first(), "Via"@);
        via_has_no_other_name(h.drop_first(), name);
        assert forall|i: int| 0 <= i < headers_called(h, "Via"@).len() implies lower(
            (#[trigger] headers_called(h, "Via"@)[i]).0,
        ) != lower(name) by {
            if lower(h[0].0) == lower("Via"@) && i > 0 {
                assert(headers_called(h, "Via"@)[i] == rest[i - 1]);
            }
        }
    }
}

proof fn names_are_distinct()
    ensures
        lower("Via"@) != lower("Call-ID"@),
        lower("From"@) != lower("Call-ID"@),
        lower("To"@) != lower("Call-ID"@),
{
    reveal_strlit("Via");
    reveal_strlit("From");
    reveal_strlit("To");
    reveal_strlit("Call-ID");
    assert(lower("Via"@).len() == 3);
    assert(lower("From"@).len() == 4);
    assert(lower("To"@).len() == 2);
    assert(lower("Call-ID"@).len() == 7);
}

/// A header is found by its name in any case: what is given is the value of the first
/// header of that name, and nothing only where there is none.
pub proof fn the_first_header_of_a_name_is_read(
    request: &Request,
    name: &str,
    r: Option<&str>,
    i: int,
)
    requires
        call_ensures(Request::header, (request, name), r),
    ensures
        0 <= i < request.headers@.len() && lower(request.headers@[i].0@) == lower(name@) && (
        forall|k: int|
            0 <= k < i ==> lower((#[trigger] request.headers@[k]).0@) != lower(name@)) ==> (
        r matches Some(v) && v@ == request.headers@[i].1@),
        (forall|k: int|
            0 <= k < request.headers@.len() ==> lower((#[trigger] request.headers@[k]).0@) != lower(
                name@,
            )) ==> r is None,
{
    let h = header_views(request.headers@);
    if 0 <= i < request.headers@.len() && lower(request.headers@[i].0@) == lower(name@) && (forall|
        k: int,
    |
        0 <= k < i ==> lower((#[trigger] request.headers@[k]).0@) != lower(name@)) {
        let front = h.subrange(0, i);
        let rest = h.subrange(i, h.len() as int);
        assert forall|k: int| 0 <= k < front.len() implies lower((#[trigger] front[k]).0) != lower(
            name@,
        ) by {
            assert(front[k].0 == request.headers@[k].0@);
        }
        skip_others(front, rest, name@);
        assert(front + rest =~= h);
        assert(rest[0] == h[i]);
    }
    if forall|k: int|
        0 <= k < request.headers@.len() ==> lower((#[trigger] request.headers@[k]).0@) != lower(
            name@,
        ) {
        assert forall|k: int| 0 <= k < h.len() implies lower((#[trigger] h[k]).0) != lower(
            name@,
        ) by {
            assert(h[k].0 == request.headers@[k].0@);
        }
        skip_others(h, Seq::empty(), name@);
        assert(h + Seq::empty() =~= h);
    }
}

/// A call is known by the value of its `Call-ID` header, and by the empty text without
/// one.
pub proof fn a_call_is_known_by_its_call_id(request: &Request, id: String, header: Option<&str>)
    requires
        call_ensures(Request::call_id, (request,), id),
        call_ensures(Request::header, (request, "Call-ID"), header),
    ensures
        header matches Some(v) ==> id@ == v@,
        header is None ==> id@.len() == 0,
{
}

/// A response has its code and reason, repeats the `Via` headers of the request, then its
/// `From`, `To`, `Call-ID` and `CSeq` where it has them, and adds nothing; a header that
/// is added comes last.
pub proof fn a_response_repeats_what_correlates_it(
    request: &Request,
    code: u16,
    reason: &str,
    r: Response,
    name: &str,
    value: String,
    more: Response,
)
    requires
        call_ensures(Response::create_response, (request, code, reason), r),
        call_ensures(Response::with_header, (r, name, value), more),
    ensures
        r.code == code && r.reason@ == reason@,
        more.code == code && more.reason@ == reason@,
        more.headers@.len() == r.headers@.len() + 1,
        more.headers@.last().0@ == name@ && more.headers@.last().1@ == value@,
        forall|i: int|
            0 <= i < r.headers@.len() ==> (#[trigger] more.headers@[i]).0@ == r.headers@[i].0@
                && more.headers@[i].1@ == r.headers@[i].1@,
        (forall|i: int|
            0 <= i < request.headers@.len() ==> lower((#[trigger] request.headers@[i]).0@) != lower(
                "Via"@,
            ) && lower(request.headers@[i].0@) != lower("From"@) && lower(request.headers@[i].0@)
                != lower("To"@) && lower(request.headers@[i].0@) != lower("Call-ID"@) && lower(
                request.headers@[i].0@,
            ) != lower("CSeq"@)) ==> r.headers@.len() == 0,
{
    let h = header_views(request.headers@);
    assert(header_views(r.headers@).len() == r.headers@.len());
    assert(header_views(more.headers@).len() == more.headers@.len());
    assert forall|i: int| 0 <= i < r.headers@.len() implies (#[trigger] more.headers@[i]).0@
        == r.headers@[i].0@ && more.headers@[i].1@ == r.headers@[i].1@ by {
        assert(header_views(more.headers@)[i] == header_views(r.headers@)[i]);
    }
    assert(header_views(more.headers@)[r.headers@.len() as int] == (name@, value@));
    if forall|i: int|
        0 <= i < request.headers@.len() ==> lower((#[trigger] request.headers@[i]).0@) != lower(
            "Via"@,
        ) && lower(request.headers@[i].0@) != lower("From"@) && lower(request.headers@[i].0@)
            != lower("To"@) && lower(request.headers@[i].0@) != lower("Call-ID"@) && lower(
            request.headers@[i].0@,
        ) != lower("CSeq"@) {
        assert forall|i: int| 0 <= i < h.len() implies lower((#[trigger] h[i]).0) != lower("Via"@)
            && lower(h[i].0) != lower("From"@) && lower(h[i].0) != lower("To"@) && lower(h[i].0)
            != lower("Call-ID"@) && lower(h[i].0) != lower("CSeq"@) by {
            assert(h[i].0 == request.headers@[i].0@);
        }
        skip_others(h, Seq::empty(), "From"@);
        skip_others(h, Seq::empty(), "To"@);
        skip_others(h, Seq::empty(), "Call-ID"@);
        skip_others(h, Seq::empty(), "CSeq"@);
        assert(h + Seq::empty() =~= h);
        none_called(h, "Via"@);
    }
}

proof fn none_called(h: Seq<(Seq<char>, Seq<char>)>, name: Seq<char>)
    requires
        forall|i: int| 0 <= i < h.len() ==> lower((#[trigger] h[i]).0) != lower(name),
    ensures
        headers_called(h, name).len() == 0,
    decreases h.len(),
{
    if h.len() > 0 {
        let rest = h.drop_first();
        assert forall|i: int| 0 <= i < rest.len() implies lower((#[trigger] rest[i]).0) != lower(
            name,
        ) by {
            assert(rest[i] == h[i + 1]);
        }
        none_called(rest, name);
    }
}

/// Each of the headers that a response repeats has the value it has in the request, also
/// when the response adds others.
pub proof fn a_response_keeps_the_values(
    request: &Request,
    code: u16,
    reason: &str,
    r: Response,
)
    requires
        call_ensures(Response::create_response, (request, code, reason), r),
    ensures
        request.value_of("From"@) is Some ==> r.value_of("From"@) == request.value_of("From"@),
        request.value_of("To"@) is Some ==> r.value_of("To"@) == request.value_of("To"@),
        request.value_of("CSeq"@) is Some ==> r.value_of("CSeq"@) == request.value_of("CSeq"@),
        request.value_of("Call-ID"@) is Some ==> r.value_of("Call-ID"@) == request.value_of(
            "Call-ID"@,
        ),
        request.value_of("Via"@) is Some ==> r.value_of("Via"@) == request.value_of("Via"@),
{
    let h = header_views(request.headers@);
    let via = headers_called(h, "Via"@);
    reveal_strlit("Via");
    reveal_strlit("From");
    reveal_strlit("To");
    reveal_strlit("Call-ID");
    reveal_strlit("CSeq");
    assert(lower("Via"@).len() == 3);
    assert(lower("From"@).len() == 4 && lower("From"@)[0] == 'f');
    assert(lower("To"@).len() == 2);
    assert(lower("Call-ID"@).len() == 7);
    assert(lower("CSeq"@).len() == 4 && lower("CSeq"@)[0] == 'c');
    let from = one_header(h, "From"@);
    let to = one_header(h, "To"@);
    let id = one_header(h, "Call-ID"@);
    let cseq = one_header(h, "CSeq"@);
    assert(header_views(r.headers@) =~= via + (from + (to + (id + cseq))));
    via_has_no_other_name(h, "From"@);
    via_has_no_other_name(h, "To"@);
    via_has_no_other_name(h, "Call-ID"@);
    via_has_no_other_name(h, "CSeq"@);
    first_called(h, "Via"@, from + (to + (id + cseq)));
    skip_others(via, from + (to + (id + cseq)), "From"@);
    skip_others(via, from + (to + (id + cseq)), "To"@);
    skip_others(via, from + (to + (id + cseq)), "Call-ID"@);
    skip_others(via, from + (to + (id + cseq)), "CSeq"@);
    skip_others(from, to + (id + cseq), "To"@);
    skip_others(from, to + (id + cseq), "Call-ID"@);
    skip_others(from, to + (id + cseq), "CSeq"@);
    skip_others(to, id + cseq, "Call-ID"@);
    skip_others(to, id + cseq, "CSeq"@);
    skip_others(id, cseq, "CSeq"@);
    if from.len() > 0 {
        assert((from + (to + (id + cseq)))[0] == from[0]);
    }
    if to.len() > 0 {
        assert((to + (id + cseq))[0] == to[0]);
    }
    if id.len() > 0 {
        assert((id + cseq)[0] == id[0]);
    }
}

proof fn first_called(
    h: Seq<(Seq<char>, Seq<char>)>,
    name: Seq<char>,
    rest: Seq<(Seq<char>, Seq<char>)>,
)
    ensures
        header_of(h, name) is Some ==> header_of(headers_called(h, name) + rest, name) == header_of(
            h,
            name,
        ),
    decreases h.len(),
{
    if h.len() > 0 {
        if lower(h[0].0) == lower(name) {
            assert((headers_called(h, name) + rest)[0] == (name, h[0].1));
        } else {
            first_called(h.drop_first(), name, rest);
        }
    }
}

/// A response tells its code and its reason, and the first header of a name in any case.
pub proof fn a_response_tells_what_it_is(
    r: &Response,
    code: u16,
    reason: &str,
    name: &str,
    value: Option<&str>,
    i: int,
)
    requires
        call_ensures(Response::code, (r,), code),
        call_ensures(Response::reason, (r,), reason),
        call_ensures(Response::header, (r, name), value),
    ensures
        code == r.code,
        reason@ == r.reason@,
        0 <= i < r.headers@.len() && lower(r.headers@[i].0@) == lower(name@) && (forall|k: int|
            0 <= k < i ==> lower((#[trigger] r.headers@[k]).0@) != lower(name@)) ==> value is Some
            && value->0@ == r.headers@[i].1@,
        (forall|k: int| 0 <= k < r.headers@.len() ==> lower((#[trigger] r.headers@[k]).0@)
            != lower(name@)) ==> value is None,
{
    let h = header_views(r.headers@);
    if 0 <= i < r.headers@.len() && lower(r.headers@[i].0@) == lower(name@) && (forall|
        k: int,
    |
        0 <= k < i ==> lower((#[trigger] r.headers@[k]).0@) != lower(name@)) {
        let front = h.subrange(0, i);
        let rest = h.subrange(i, h.len() as int);
        assert forall|k: int| 0 <= k < front.len() implies lower((#[trigger] front[k]).0) != lower(
            name@,
        ) by {
            assert(front[k].0 == r.headers@[k].0@);
        }
        skip_others(front, rest, name@);
        assert(front + rest =~= h);
        assert(rest[0] == h[i]);
    }
    if forall|k: int|
        0 <= k < r.headers@.len() ==> lower((#[trigger] r.headers@[k]).0@) != lower(
            name@,
        ) {
        assert forall|k: int| 0 <= k < h.len() implies lower((#[trigger] h[k]).0) != lower(
            name@,
        ) by {
            assert(h[k].0 == r.headers@[k].0@);
        }
        skip_others(h, Seq::empty(), name@);
        assert(h + Seq::empty() =~= h);
    }
}

} // verus!
