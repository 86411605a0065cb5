//! Collecting the fields of a log event.
//!
//! A field comes either as a string or as its debug text; the quotes that the
//! debug text of a string carries are taken off.
use vstd::prelude::*;

use crate::text::{chars_of, concat3, str_eq, string_from};

verus! {

/// `s` without the quotes that it starts with.
pub open spec fn unquoted_start(s: Seq<char>) -> Seq<char>
    decreases s.len(),
{
    if s.len() > 0 && s[0] == '"' {
        unquoted_start(s.drop_first())
    } else {
        s
    }
}

/// `s` without the quotes that it ends with.
pub open spec fn unquoted_end(s: Seq<char>) -> Seq<char>
    decreases s.len(),
{
    if s.len() > 0 && s.last() == '"' {
        unquoted_end(s.drop_last())
    } else {
        s
    }
}

/// `s` without the quotes around it.
pub open spec fn unquoted(s: Seq<char>) -> Seq<char> {
    unquoted_end(unquoted_start(s))
}

/// `s` without any quote.
pub open spec fn quoteless(s: Seq<char>) -> Seq<char>
    decreases s.len(),
{
    if s.len() == 0 {
        seq![]
    } else if s.last() == '"' {
        quoteless(s.drop_last())
    } else {
        quoteless(s.drop_last()).push(s.last())
    }
}

fn trim_quotes(s: &str) -> (r: String)
    ensures
        r@ == unquoted(s@),
{
    let v = chars_of(s);
    let ghost all = s@;
    assert(all.subrange(0, all.len() as int) =~= all);
    let mut i: usize = 0;
    while i < v.len() && v[i] == '"'
        invariant
            v@ == all,
            i <= v@.len(),
            unquoted_start(all) == unquoted_start(all.subrange(i as int, all.len() as int)),
        decreases v@.len() - i,
    {
        assert(all.subrange(i as int, all.len() as int).drop_first() =~= all.subrange(
            i + 1,
            all.len() as int,
        ));
        i += 1;
    }
    let ghost front = all.subrange(i as int, all.len() as int);
    assert(unquoted_start(all) == front);
    let mut j: usize = v.len();
    while j > i && v[j - 1] == '"'
        invariant
            v@ == all,
            i <= j <= v@.len(),
            front == all.subrange(i as int, all.len() as int),
            unquoted_end(front) == unquoted_end(all.subrange(i as int, j as int)),
        decreases j,
    {
        assert(all.subrange(i as int, j as int).drop_last() =~= all.subrange(i as int, j - 1));
        j -= 1;
    }
    assert(unquoted_end(front) == all.subrange(i as int, j as int));
    string_from(&v, i, j)
}

fn remove_quotes(s: &str) -> (r: String)
    ensures
        r@ == quoteless(s@),
{
    let v = chars_of(s);
    let ghost all = s@;
    let mut out = String::new();
    let mut i: usize = 0;
    assert(all.subrange(0, 0) =~= seq![]);
    assert(out@ =~= seq![]);
    while i < v.len()
        invariant
            v@ == all,
            i <= v@.len(),
            out@ == quoteless(all.subrange(0, i as int)),
        decreases v@.len() - i,
    {
        let ghost next = all.subrange(0, i + 1);
        assert(next.drop_last() =~= all.subrange(0, i as int));
        assert(next.last() == all[i as int]);
        if v[i] != '"' {
            out.push(v[i]);
        }
        i += 1;
    }
    assert(all.subrange(0, i as int) =~= all);
    out
}

/// `name=value ` as it stands among the fields.
pub open spec fn pair(name: Seq<char>, value: Seq<char>) -> Seq<char> {
    name + "="@ + value + " "@
}

fn pair_text(name: &str, value: &str) -> (r: String)
    ensures
        r@ == pair(name@, value@),
{
    let mut r = concat3(name, "=", value);
    r.push_str(" ");
    r
}

/// Takes the `call_id` off a span.
#[derive(Debug)]
pub struct CallIdVisitor {
    pub call_id: Option<String>,
}

/// The view of an optional text.
pub open spec fn text_of(s: Option<String>) -> Option<Seq<char>> {
    match s {
        Some(t) => Some(t@),
        None => None,
    }
}

impl CallIdVisitor {
    /// A field by its debug text.
    pub fn record_debug(&mut self, field: &str, text: &str)
        ensures
            text_of(final(self).call_id) == (if field@ == "call_id"@ {
                Some(unquoted(text@))
            } else {
                text_of(old(self).call_id)
            }),
    {
        if str_eq(field, "call_id") {
            self.call_id = Some(trim_quotes(text));
        }
    }

    /// A field that is a string.
    pub fn record_str(&mut self, field: &str, value: &str)
        ensures
            text_of(final(self).call_id) == (if field@ == "call_id"@ {
                Some(value@)
            } else {
                text_of(old(self).call_id)
            }),
    {
        if str_eq(field, "call_id") {
            self.call_id = Some(value.to_owned());
        }
    }
}

/// Takes the message, the `call_id` and the other fields off an event.
#[derive(Debug)]
pub struct MessageVisitor {
    pub message: String,
    /// The other fields, each as `name=value ` in the order in which they came.
    pub fields: String,
    pub call_id: Option<String>,
}

impl MessageVisitor {
    /// Nothing collected yet.
    pub fn new() -> (r: Self)
        ensures
            r.message@ == Seq::<char>::empty(),
            r.fields@ == Seq::<char>::empty(),
            r.call_id is None,
    {
        let r = MessageVisitor { message: String::new(), fields: String::new(), call_id: None };
        assert(r.message@ =~= seq![]);
        assert(r.fields@ =~= seq![]);
        r
    }

    /// After the field `name`: the message is `shown`, or the call id is, or
    /// `listed` is added to the fields.
    pub open spec fn after(
        self,
        old_self: Self,
        name: Seq<char>,
        shown: Seq<char>,
        listed: Seq<char>,
    ) -> bool {
        &&& self.message@ == (if name == "message"@ {
            shown
        } else {
            old_self.message@
        })
        &&& text_of(self.call_id) == (if name == "call_id"@ {
            Some(shown)
        } else {
            text_of(old_self.call_id)
        })
        &&& self.fields@ == (if name == "message"@ || name == "call_id"@ {
            old_self.fields@
        } else {
            old_self.fields@ + listed
        })
    }

    /// A field by its debug text.
    pub fn record_debug(&mut self, field: &str, text: &str)
        ensures
            final(self).after(
                *old(self),
                field@,
                unquoted(text@),
                quoteless(pair(field@, text@)),
            ),
    {
        proof {
            names_differ();
        }
        if str_eq(field, "message") {
            self.message = trim_quotes(text);
        } else if str_eq(field, "call_id") {
            self.call_id = Some(trim_quotes(text));
        } else {
            let shown = remove_quotes(pair_text(field, text).as_str());
            self.fields.push_str(shown.as_str());
        }
    }

    /// A field that is a string.
    pub fn record_str(&mut self, field: &str, value: &str)
        ensures
            final(self).after(*old(self), field@, value@, pair(field@, value@)),
    {
        proof {
            names_differ();
        }
        if str_eq(field, "message") {
            self.message = value.to_owned();
        } else if str_eq(field, "call_id") {
            self.call_id = Some(value.to_owned());
        } else {
            self.fields.push_str(pair_text(field, value).as_str());
        }
    }
}

impl Default for MessageVisitor {
    fn default() -> (r: Self)
        ensures
            r.message@ == Seq::<char>::empty(),
            r.fields@ == Seq::<char>::empty(),
            r.call_id is None,
    {
        MessageVisitor::new()
    }
}

proof fn names_differ()
    ensures
        "message"@ != "call_id"@,
{
    reveal_strlit("message");
    reveal_strlit("call_id");
    assert("message"@[0] == 'm');
    assert("call_id"@[0] == 'c');
}

// ---- What is promised of every field ----

/// `r` is `s` with the quotes around it gone: nothing but quotes stands in front of it and
/// behind it, and it neither starts nor ends with one.
pub open spec fn is_between_quotes(s: Seq<char>, r: Seq<char>, a: int, b: int) -> bool {
    &&& 0 <= a <= b <= s.len()
    &&& r == s.subrange(a, b)
    &&& forall|k: int| 0 <= k < a ==> #[trigger] s[k] == '"'
    &&& forall|k: int| b <= k < s.len() ==> #[trigger] s[k] == '"'
    &&& r.len() > 0 ==> r[0] != '"' && r[r.len() - 1] != '"'
}

proof fn unquoting_takes_the_outer_quotes(s: Seq<char>) -> (p: (int, int))
    ensures
        is_between_quotes(s, unquoted(s), p.0, p.1),
{
    let a = unquoting_takes_the_first_quotes(s);
    let u = unquoted_start(s);
    let b = unquoting_takes_the_last_quotes(u);
    assert(unquoted(s) =~= s.subrange(a, a + b));
    assert forall|k: int| a + b <= k < s.len() implies #[trigger] s[k] == '"' by {
        assert(u[k - a] == s[k]);
    }
    if unquoted(s).len() > 0 {
        assert(unquoted(s)[0] == u[0]);
    }
    (a, a + b)
}

proof fn unquoting_takes_the_first_quotes(s: Seq<char>) -> (a: int)
    ensures
        0 <= a <= s.len(),
        unquoted_start(s) == s.subrange(a, s.len() as int),
        forall|k: int| 0 <= k < a ==> #[trigger] s[k] == '"',
        a < s.len() ==> s[a] != '"',
    decreases s.len(),
{
    if s.len() > 0 && s[0] == '"' {
        let rest = s.drop_first();
        let a = unquoting_takes_the_first_quotes(rest);
        assert(rest.subrange(a, rest.len() as int) =~= s.subrange(a + 1, s.len() as int));
        assert forall|k: int| 0 <= k < a + 1 implies #[trigger] s[k] == '"' by {
            if k > 0 {
                assert(rest[k - 1] == s[k]);
            }
        }
        if a < rest.len() {
            assert(rest[a] == s[a + 1]);
        }
        a + 1
    } else {
        assert(s.subrange(0, s.len() as int) =~= s);
        0
    }
}

proof fn unquoting_takes_the_last_quotes(s: Seq<char>) -> (b: int)
    ensures
        0 <= b <= s.len(),
        unquoted_end(s) == s.subrange(0, b),
        forall|k: int| b <= k < s.len() ==> #[trigger] s[k] == '"',
        b > 0 ==> s[b - 1] != '"',
    decreases s.len(),
{
    if s.len() > 0 && s.last() == '"' {
        let rest = s.drop_last();
        let b = unquoting_takes_the_last_quotes(rest);
        assert(rest.subrange(0, b) =~= s.subrange(0, b));
        assert forall|k: int| b <= k < s.len() implies #[trigger] s[k] == '"' by {
            if k < rest.len() {
                assert(rest[k] == s[k]);
            }
        }
        b
    } else {
        assert(s.subrange(0, s.len() as int) =~= s);
        s.len() as int
    }
}

proof fn quoteless_is_the_rest(s: Seq<char>, plain: spec_fn(char) -> bool)
    requires
        forall|c: char| #[trigger] plain(c) <==> c != '"',
    ensures
        quoteless(s) == s.filter(plain),
    decreases s.len(),
{
    reveal(Seq::filter);
    if s.len() > 0 {
        quoteless_is_the_rest(s.drop_last(), plain);
        assert(plain(s.last()) <==> s.last() != '"');
    }
}

/// The `call_id` of a span is the last one that was recorded, as it was given or, from its
/// debug text, without the quotes around it; no other field changes it.
pub proof fn a_span_keeps_its_last_call_id(
    v: &mut CallIdVisitor,
    field: &str,
    value: &str,
    w: &mut CallIdVisitor,
) -> (p: (int, int))
    requires
        call_ensures(CallIdVisitor::record_str, (v, field, value), ()),
        call_ensures(CallIdVisitor::record_debug, (w, field, value), ()),
    ensures
        field@ == "call_id"@ ==> final(v).call_id is Some && final(v).call_id->0@ == value@,
        field@ == "call_id"@ ==> final(w).call_id is Some && is_between_quotes(
            value@,
            final(w).call_id->0@,
            p.0,
            p.1,
        ),
        field@ != "call_id"@ ==> {
            &&& final(v).call_id is Some <==> old(v).call_id is Some
            &&& old(v).call_id is Some ==> final(v).call_id->0@ == old(v).call_id->0@
            &&& final(w).call_id is Some <==> old(w).call_id is Some
            &&& old(w).call_id is Some ==> final(w).call_id->0@ == old(w).call_id->0@
        },
{
    unquoting_takes_the_outer_quotes(value@)
}

/// A string field of an event goes where its name says: to the message, to the call id, or
/// behind the other fields as `name=value` and a space; and nowhere else.
pub proof fn a_string_field_goes_where_its_name_says(
    v: &mut MessageVisitor,
    field: &str,
    value: &str,
)
    requires
        call_ensures(MessageVisitor::record_str, (v, field, value), ()),
    ensures
        field@ == "message"@ ==> final(v).message@ == value@,
        field@ != "message"@ ==> final(v).message@ == old(v).message@,
        field@ == "call_id"@ ==> final(v).call_id is Some && final(v).call_id->0@ == value@,
        field@ != "call_id"@ ==> (final(v).call_id is Some <==> old(v).call_id is Some) && (old(
            v,
        ).call_id is Some ==> final(v).call_id->0@ == old(v).call_id->0@),
        field@ == "message"@ || field@ == "call_id"@ ==> final(v).fields@ == old(v).fields@,
        field@ != "message"@ && field@ != "call_id"@ ==> final(v).fields@ == old(v).fields@ + (
        field@ + "="@ + value@ + " "@),
{
    names_differ();
}

/// A field that comes as its debug text goes where its name says too: without the quotes
/// around it to the message or the call id, and without any quote behind the other fields.
pub proof fn a_debug_field_goes_where_its_name_says(
    v: &mut MessageVisitor,
    field: &str,
    text: &str,
    plain: spec_fn(char) -> bool,
) -> (p: (int, int))
    requires
        call_ensures(MessageVisitor::record_debug, (v, field, text), ()),
        forall|c: char| #[trigger] plain(c) <==> c != '"',
    ensures
        field@ == "message"@ ==> is_between_quotes(text@, final(v).message@, p.0, p.1),
        field@ != "message"@ ==> final(v).message@ == old(v).message@,
        field@ == "call_id"@ ==> final(v).call_id is Some && is_between_quotes(
            text@,
            final(v).call_id->0@,
            p.0,
            p.1,
        ),
        field@ != "call_id"@ ==> (final(v).call_id is Some <==> old(v).call_id is Some) && (old(
            v,
        ).call_id is Some ==> final(v).call_id->0@ == old(v).call_id->0@),
        field@ == "message"@ || field@ == "call_id"@ ==> final(v).fields@ == old(v).fields@,
        field@ != "message"@ && field@ != "call_id"@ ==> final(v).fields@ == old(v).fields@ + (
        field@ + "="@ + text@ + " "@).filter(plain),
{
    names_differ();
    quoteless_is_the_rest(pair(field@, text@), plain);
    unquoting_takes_the_outer_quotes(text@)
}

} // verus!
