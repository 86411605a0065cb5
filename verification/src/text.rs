//! Text primitives over the character view of strings.
//!
//! Every comparison, trim and split the rest of the crate makes goes through
//! this module, so its contracts are stated once, over `Seq<char>`.
use vstd::prelude::*;
use vstd::string::*;

verus! {

/// `String::push` appends one character.
pub assume_specification[ String::push ](s: &mut String, c: char)
    ensures
        final(s)@ == old(s)@.push(c),
;

/// `String::push_str` appends a whole string slice.
pub assume_specification[ String::push_str ](s: &mut String, t: &str)
    ensures
        final(s)@ == old(s)@ + t@,
;

/// What `{:?}` prints for a string: the text in double quotes, with the
/// characters escaped that `str`'s `Debug` escapes.
pub uninterp spec fn debug_form(s: Seq<char>) -> Seq<char>;

/// `str`'s `Debug` output, as `format!("{:?}", s)` gives it. The escaping rules
/// (which characters, which notation) are not spelled out: only that the output
/// depends on the text alone.
#[verifier::external_body]
pub(crate) fn debug_quoted(s: &str) -> (r: String)
    ensures
        r@ == debug_form(s@),
{
    format!("{:?}", s)
}

/// Equality of two string slices.
pub fn str_eq(a: &str, b: &str) -> (r: bool)
    ensures
        r == (a@ == b@),
{
    let mut ia = a.chars();
    let mut ib = b.chars();
    let ghost mut n: int = 0;
    loop
        invariant
            0 <= n <= a@.len(),
            n <= b@.len(),
            vstd::std_specs::iter::IteratorSpec::remaining(&ia) == a@.subrange(n, a@.len() as int),
            vstd::std_specs::iter::IteratorSpec::remaining(&ib) == b@.subrange(n, b@.len() as int),
            a@.subrange(0, n) == b@.subrange(0, n),
        decreases a@.len() - n,
    {
        let ca = ia.next();
        let cb = ib.next();
        match (ca, cb) {
            (None, None) => {
                assert(a@ =~= a@.subrange(0, n));
                assert(b@ =~= b@.subrange(0, n));
                return true;
            },
            (Some(x), Some(y)) => {
                assert(a@[n] == x && b@[n] == y);
                if x != y {
                    return false;
                }
                assert(a@.subrange(0, n + 1) =~= a@.subrange(0, n).push(x));
                assert(b@.subrange(0, n + 1) =~= b@.subrange(0, n).push(y));
                proof {
                    n = n + 1;
                }
            },
            _ => {
                return false;
            },
        }
    }
}

/// The characters of `s`, in order.
pub fn chars_of(s: &str) -> (v: Vec<char>)
    ensures
        v@ == s@,
{
    let mut v: Vec<char> = Vec::new();
    let mut it = s.chars();
    loop
        invariant
            v@.len() <= s@.len(),
            v@ == s@.subrange(0, v@.len() as int),
            vstd::std_specs::iter::IteratorSpec::remaining(&it) == s@.subrange(
                v@.len() as int,
                s@.len() as int,
            ),
        decreases s@.len() - v@.len(),
    {
        match it.next() {
            None => {
                assert(s@.subrange(0, v@.len() as int) =~= s@);
                return v;
            },
            Some(c) => {
                let ghost n = v@.len() as int;
                assert(s@[n] == c);
                v.push(c);
                assert(s@.subrange(0, n + 1) =~= s@.subrange(0, n).push(c));
            },
        }
    }
}

/// The string made of `v[from..to]`.
pub fn string_from(v: &Vec<char>, from: usize, to: usize) -> (r: String)
    requires
        from <= to <= v@.len(),
    ensures
        r@ == v@.subrange(from as int, to as int),
{
    let mut r = String::new();
    let mut i: usize = from;
    while i < to
        invariant
            from <= i <= to <= v@.len(),
            r@ == v@.subrange(from as int, i as int),
        decreases to - i,
    {
        r.push(v[i]);
        assert(v@.subrange(from as int, i + 1) =~= v@.subrange(from as int, i as int).push(v@[i as int]));
        i += 1;
    }
    r
}

/// `a` followed by `b`.
pub fn concat(a: &str, b: &str) -> (r: String)
    ensures
        r@ == a@ + b@,
{
    let mut r = a.to_owned();
    r.push_str(b);
    r
}

/// `a`, `b` and `c` in a row.
pub fn concat3(a: &str, b: &str, c: &str) -> (r: String)
    ensures
        r@ == a@ + b@ + c@,
{
    let mut r = a.to_owned();
    r.push_str(b);
    r.push_str(c);
    r
}

// ---- ASCII case ----

/// The ASCII lower case of one character; every other character is kept.
pub open spec fn lower_char(c: char) -> char {
    if 'A' <= c <= 'Z' {
        ((c as u8) + 32) as char
    } else {
        c
    }
}

/// `s` with its ASCII letters in lower case.
pub open spec fn lower(s: Seq<char>) -> Seq<char> {
    Seq::new(s.len(), |i: int| lower_char(s[i]))
}

/// ASCII lower case of one character.
pub fn to_lower_char(c: char) -> (r: char)
    ensures
        r == lower_char(c),
{
    if 'A' <= c && c <= 'Z' {
        ((c as u8) + 32) as char
    } else {
        c
    }
}

/// `s` with its ASCII letters in lower case.
pub fn to_ascii_lowercase(s: &str) -> (r: String)
    ensures
        r@ == lower(s@),
{
    let v = chars_of(s);
    let mut r = String::new();
    let mut i: usize = 0;
    while i < v.len()
        invariant
            v@ == s@,
            i <= v@.len(),
            r@ == lower(s@.subrange(0, i as int)),
        decreases v@.len() - i,
    {
        r.push(to_lower_char(v[i]));
        assert(lower(s@.subrange(0, i + 1)) =~= lower(s@.subrange(0, i as int)).push(
            lower_char(s@[i as int]),
        ));
        i += 1;
    }
    assert(s@.subrange(0, i as int) =~= s@);
    r
}

/// Whether two strings are equal once ASCII letters are lower-cased.
pub fn eq_ignore_ascii_case(a: &str, b: &str) -> (r: bool)
    ensures
        r == (lower(a@) == lower(b@)),
{
    let x = to_ascii_lowercase(a);
    let y = to_ascii_lowercase(b);
    x == y
}

/// Lower-casing twice is lower-casing once.
pub proof fn lower_is_idempotent(s: Seq<char>)
    ensures
        lower(lower(s)) == lower(s),
{
    assert(lower(lower(s)) =~= lower(s));
}

// ---- White space ----

/// The Unicode `White_Space` characters.
pub open spec fn is_space(c: char) -> bool {
    ||| '\u{9}' <= c <= '\u{d}'
    ||| c == ' '
    ||| c == '\u{85}'
    ||| c == '\u{a0}'
    ||| c == '\u{1680}'
    ||| '\u{2000}' <= c <= '\u{200a}'
    ||| c == '\u{2028}'
    ||| c == '\u{2029}'
    ||| c == '\u{202f}'
    ||| c == '\u{205f}'
    ||| c == '\u{3000}'
}

/// Whether `c` is a Unicode white-space character.
pub fn char_is_space(c: char) -> (r: bool)
    ensures
        r == is_space(c),
{
    ('\u{9}' <= c && c <= '\u{d}') || c == ' ' || c == '\u{85}' || c == '\u{a0}' || c == '\u{1680}'
        || ('\u{2000}' <= c && c <= '\u{200a}') || c == '\u{2028}' || c == '\u{2029}' || c
        == '\u{202f}' || c == '\u{205f}' || c == '\u{3000}'
}

/// `s` without its leading white space.
pub open spec fn trim_start_of(s: Seq<char>) -> Seq<char>
    decreases s.len(),
{
    if s.len() > 0 && is_space(s[0]) {
        trim_start_of(s.drop_first())
    } else {
        s
    }
}

/// `s` without its trailing white space.
pub open spec fn trim_end_of(s: Seq<char>) -> Seq<char>
    decreases s.len(),
{
    if s.len() > 0 && is_space(s.last()) {
        trim_end_of(s.drop_last())
    } else {
        s
    }
}

/// `s` without white space at either end.
pub open spec fn trimmed(s: Seq<char>) -> Seq<char> {
    trim_end_of(trim_start_of(s))
}

/// `s` without white space at either end.
pub fn trim(s: &str) -> (r: &str)
    ensures
        r@ == trimmed(s@),
{
    let v = chars_of(s);
    let mut i: usize = 0;
    assert(s@.subrange(0, s@.len() as int) =~= s@);
    while i < v.len() && char_is_space(v[i])
        invariant
            v@ == s@,
            i <= v@.len(),
            trim_start_of(s@) == trim_start_of(s@.subrange(i as int, s@.len() as int)),
        decreases v@.len() - i,
    {
        assert(s@.subrange(i as int, s@.len() as int).drop_first() =~= s@.subrange(
            i + 1,
            s@.len() as int,
        ));
        i += 1;
    }
    let ghost front = s@.subrange(i as int, s@.len() as int);
    assert(trim_start_of(s@) == front);
    let mut j: usize = v.len();
    while j > i && char_is_space(v[j - 1])
        invariant
            v@ == s@,
            i <= j <= v@.len(),
            front == s@.subrange(i as int, s@.len() as int),
            trim_end_of(front) == trim_end_of(s@.subrange(i as int, j as int)),
        decreases j,
    {
        assert(s@.subrange(i as int, j as int).drop_last() =~= s@.subrange(i as int, j - 1));
        j -= 1;
    }
    assert(trim_end_of(front) == s@.subrange(i as int, j as int));
    s.substring_char(i, j)
}

/// A trimmed text has no white space at either end.
pub proof fn trimmed_has_no_outer_space(s: Seq<char>)
    ensures
        trimmed(s).len() > 0 ==> !is_space(trimmed(s)[0]) && !is_space(trimmed(s).last()),
{
    let t = trim_start_of(s);
    trim_start_head(s);
    trim_end_tail(t);
}

proof fn trim_start_head(s: Seq<char>)
    ensures
        trim_start_of(s).len() > 0 ==> !is_space(trim_start_of(s)[0]),
    decreases s.len(),
{
    if s.len() > 0 && is_space(s[0]) {
        trim_start_head(s.drop_first());
    }
}

proof fn trim_end_tail(s: Seq<char>)
    ensures
        trim_end_of(s).len() > 0 ==> !is_space(trim_end_of(s).last()) && trim_end_of(s)[0] == s[0],
    decreases s.len(),
{
    if s.len() > 0 && is_space(s.last()) {
        trim_end_tail(s.drop_last());
    }
}

/// How many white-space characters `s` starts with.
pub open spec fn indent(s: Seq<char>) -> int {
    s.len() - trim_start_of(s).len()
}

/// How many white-space characters `v` starts with.
pub fn find_indent(v: &Vec<char>) -> (r: usize)
    ensures
        r == indent(v@),
        r <= v@.len(),
{
    let mut i: usize = 0;
    assert(v@.subrange(0, v@.len() as int) =~= v@);
    while i < v.len() && char_is_space(v[i])
        invariant
            i <= v@.len(),
            trim_start_of(v@) == trim_start_of(v@.subrange(i as int, v@.len() as int)),
        decreases v@.len() - i,
    {
        assert(v@.subrange(i as int, v@.len() as int).drop_first() =~= v@.subrange(
            i + 1,
            v@.len() as int,
        ));
        i += 1;
    }
    i
}

/// The white space in front and the trimmed text fit into the text.
proof fn trimmed_fits(s: Seq<char>)
    ensures
        0 <= indent(s) <= s.len(),
        indent(s) + trimmed(s).len() <= s.len(),
{
    trim_start_fits(s);
    trim_end_fits(trim_start_of(s));
}

proof fn trim_start_fits(s: Seq<char>)
    ensures
        trim_start_of(s).len() <= s.len(),
    decreases s.len(),
{
    if s.len() > 0 && is_space(s[0]) {
        trim_start_fits(s.drop_first());
    }
}

proof fn trim_end_fits(s: Seq<char>)
    ensures
        trim_end_of(s).len() <= s.len(),
    decreases s.len(),
{
    if s.len() > 0 && is_space(s.last()) {
        trim_end_fits(s.drop_last());
    }
}

/// A trimmed text is the part of the text behind the white space in front.
pub proof fn trimmed_is_inner(s: Seq<char>)
    ensures
        0 <= indent(s) <= s.len(),
        indent(s) + trimmed(s).len() <= s.len(),
        trimmed(s) == s.subrange(indent(s), indent(s) + trimmed(s).len()),
{
    trimmed_fits(s);
    trim_start_is_suffix(s);
    trim_end_is_prefix(trim_start_of(s));
    assert(trimmed(s) =~= s.subrange(indent(s), indent(s) + trimmed(s).len()));
}

proof fn trim_start_is_suffix(s: Seq<char>)
    ensures
        trim_start_of(s) == s.subrange(indent(s), s.len() as int),
    decreases s.len(),
{
    trim_start_fits(s);
    if s.len() > 0 && is_space(s[0]) {
        trim_start_is_suffix(s.drop_first());
        trim_start_fits(s.drop_first());
    }
    assert(trim_start_of(s) =~= s.subrange(indent(s), s.len() as int));
}

proof fn trim_end_is_prefix(s: Seq<char>)
    ensures
        trim_end_of(s) == s.subrange(0, trim_end_of(s).len() as int),
    decreases s.len(),
{
    trim_end_fits(s);
    if s.len() > 0 && is_space(s.last()) {
        trim_end_is_prefix(s.drop_last());
        trim_end_fits(s.drop_last());
    }
    assert(trim_end_of(s) =~= s.subrange(0, trim_end_of(s).len() as int));
}

// ---- Prefixes, suffixes, search ----

/// `p` is how `s` starts.
pub open spec fn has_prefix(s: Seq<char>, p: Seq<char>) -> bool {
    s.len() >= p.len() && s.subrange(0, p.len() as int) == p
}

/// `p` is how `s` ends.
pub open spec fn has_suffix(s: Seq<char>, p: Seq<char>) -> bool {
    s.len() >= p.len() && s.subrange(s.len() - p.len(), s.len() as int) == p
}

/// What follows the first `n` characters of `s`.
pub open spec fn after(s: Seq<char>, n: nat) -> Seq<char> {
    s.subrange(n as int, s.len() as int)
}

/// Whether `s` starts with `p`.
pub fn starts_with(s: &str, p: &str) -> (r: bool)
    ensures
        r == has_prefix(s@, p@),
{
    let n = s.unicode_len();
    let m = p.unicode_len();
    m <= n && str_eq(s.substring_char(0, m), p)
}

/// Whether `s` ends with `p`.
pub fn ends_with(s: &str, p: &str) -> (r: bool)
    ensures
        r == has_suffix(s@, p@),
{
    let n = s.unicode_len();
    let m = p.unicode_len();
    m <= n && str_eq(s.substring_char(n - m, n), p)
}

/// What follows the prefix `p` in `s`; `None` when `s` does not start with `p`.
pub fn strip_prefix<'a>(s: &'a str, p: &str) -> (r: Option<&'a str>)
    ensures
        match r {
            Some(t) => has_prefix(s@, p@) && t@ == after(s@, p@.len()),
            None => !has_prefix(s@, p@),
        },
{
    let n = s.unicode_len();
    let m = p.unicode_len();
    if m <= n && str_eq(s.substring_char(0, m), p) {
        Some(s.substring_char(m, n))
    } else {
        None
    }
}

/// What precedes the suffix `p` in `s`; `None` when `s` does not end with `p`.
pub fn strip_suffix<'a>(s: &'a str, p: &str) -> (r: Option<&'a str>)
    ensures
        match r {
            Some(t) => has_suffix(s@, p@) && t@ == s@.subrange(0, s@.len() - p@.len()),
            None => !has_suffix(s@, p@),
        },
{
    let n = s.unicode_len();
    let m = p.unicode_len();
    if m <= n && str_eq(s.substring_char(n - m, n), p) {
        Some(s.substring_char(0, n - m))
    } else {
        None
    }
}

/// `p` occurs in `s` at character `i`.
pub open spec fn occurs_at(s: Seq<char>, p: Seq<char>, i: int) -> bool {
    0 <= i && i + p.len() <= s.len() && s.subrange(i, i + p.len()) == p
}

/// `p` occurs somewhere in `s`.
pub open spec fn has_infix(s: Seq<char>, p: Seq<char>) -> bool {
    exists|i: int| occurs_at(s, p, i)
}

/// Whether `p` occurs in `s`.
pub fn contains(s: &str, p: &str) -> (r: bool)
    ensures
        r == has_infix(s@, p@),
{
    let n = s.unicode_len();
    let m = p.unicode_len();
    if m > n {
        return false;
    }
    let mut i: usize = 0;
    while i <= n - m
        invariant
            n == s@.len(),
            m == p@.len(),
            m <= n,
            i <= n - m + 1,
            forall|k: int| 0 <= k < i ==> !occurs_at(s@, p@, k),
        decreases n - m + 1 - i,
    {
        if str_eq(s.substring_char(i, i + m), p) {
            assert(occurs_at(s@, p@, i as int));
            return true;
        }
        if i == n - m {
            return false;
        }
        i += 1;
    }
    false
}

/// The index of the first `c` in `s`, or the length of `s` when there is none.
pub open spec fn first_index(s: Seq<char>, c: char) -> int
    decreases s.len(),
{
    if s.len() == 0 || s[0] == c {
        0
    } else {
        1 + first_index(s.drop_first(), c)
    }
}

/// `first_index` lies within the text, and no `c` comes before it.
pub proof fn first_index_is_first(s: Seq<char>, c: char)
    ensures
        0 <= first_index(s, c) <= s.len(),
        first_index(s, c) < s.len() ==> s[first_index(s, c)] == c,
        forall|i: int| 0 <= i < first_index(s, c) ==> s[i] != c,
    decreases s.len(),
{
    if s.len() == 0 || s[0] == c {
    } else {
        let t = s.drop_first();
        first_index_is_first(t, c);
        assert forall|i: int| 0 <= i < first_index(s, c) implies s[i] != c by {
            if i > 0 {
                assert(t[i - 1] == s[i]);
            }
        }
    }
}

/// The index of the first `c` at or after `from`; the length when there is none.
pub fn find_char(v: &Vec<char>, from: usize, c: char) -> (r: usize)
    requires
        from <= v@.len(),
    ensures
        from <= r <= v@.len(),
        r - from == first_index(after(v@, from as nat), c),
{
    let mut i: usize = from;
    while i < v.len() && v[i] != c
        invariant
            from <= i <= v@.len(),
            first_index(after(v@, from as nat), c) == (i - from) + first_index(
                after(v@, i as nat),
                c,
            ),
        decreases v@.len() - i,
    {
        assert(after(v@, i as nat).drop_first() =~= after(v@, (i + 1) as nat));
        i += 1;
    }
    i
}

/// The first `a` or `b` in `t` at or after `from`; the length when there is none.
pub open spec fn next_of(t: Seq<char>, from: int, a: char, b: char) -> int {
    let i = from + first_index(after(t, from as nat), a);
    let j = from + first_index(after(t, from as nat), b);
    if i <= j {
        i
    } else {
        j
    }
}

/// `next_of` lies within the text.
pub proof fn next_of_fits(t: Seq<char>, from: int, a: char, b: char)
    requires
        0 <= from <= t.len(),
    ensures
        from <= next_of(t, from, a, b) <= t.len(),
{
    first_index_is_first(after(t, from as nat), a);
    first_index_is_first(after(t, from as nat), b);
}

/// The index of the first `a` or `b` at or after `from`; the length when there is none.
pub fn find_next(v: &Vec<char>, from: usize, a: char, b: char) -> (r: usize)
    requires
        from <= v@.len(),
    ensures
        r == next_of(v@, from as int, a, b),
        from <= r <= v@.len(),
{
    let i = find_char(v, from, a);
    let j = find_char(v, from, b);
    if i <= j {
        i
    } else {
        j
    }
}

/// The two sides of the first `c` in `s`; `None` when `s` has no `c`.
pub fn split_once<'a>(s: &'a str, c: char) -> (r: Option<(&'a str, &'a str)>)
    ensures
        match r {
            Some(p) => {
                &&& first_index(s@, c) < s@.len()
                &&& p.0@ == s@.subrange(0, first_index(s@, c))
                &&& p.1@ == s@.subrange(first_index(s@, c) + 1, s@.len() as int)
            },
            None => first_index(s@, c) == s@.len(),
        },
{
    let v = chars_of(s);
    let n = v.len();
    let i = find_char(&v, 0, c);
    proof {
        assert(after(s@, 0) =~= s@);
    }
    if i < n {
        Some((s.substring_char(0, i), s.substring_char(i + 1, n)))
    } else {
        None
    }
}

/// The pieces of `s` between the separators `c`: one more than there are separators.
pub open spec fn pieces(s: Seq<char>, c: char) -> Seq<Seq<char>>
    decreases s.len(),
    via pieces_decreases
{
    let i = first_index(s, c);
    if i < s.len() {
        seq![s.subrange(0, i)] + pieces(s.subrange(i + 1, s.len() as int), c)
    } else {
        seq![s]
    }
}

#[via_fn]
proof fn pieces_decreases(s: Seq<char>, c: char) {
    first_index_is_first(s, c);
}

/// A text without the separator is its own only piece.
pub proof fn one_piece(s: Seq<char>, c: char)
    requires
        !s.contains(c),
    ensures
        pieces(s, c) == seq![s],
{
    first_index_is_first(s, c);
}

/// A piece holds no separator.
pub proof fn pieces_are_separate(s: Seq<char>, c: char, i: int)
    requires
        0 <= i < pieces(s, c).len(),
    ensures
        !pieces(s, c)[i].contains(c),
    decreases s.len(),
{
    first_index_is_first(s, c);
    let k = first_index(s, c);
    if k < s.len() && i > 0 {
        pieces_are_separate(s.subrange(k + 1, s.len() as int), c, i - 1);
    }
}

/// The views of a list of strings.
pub open spec fn views(v: Seq<String>) -> Seq<Seq<char>> {
    Seq::new(v.len(), |i: int| v[i]@)
}

/// `s` cut at every `c`.
pub fn split(s: &str, c: char) -> (r: Vec<String>)
    ensures
        views(r@) == pieces(s@, c),
{
    let v = chars_of(s);
    let n = v.len();
    let mut r: Vec<String> = Vec::new();
    let mut from: usize = 0;
    assert(after(s@, 0) =~= s@);
    assert(views(r@) + pieces(s@, c) =~= pieces(s@, c));
    loop
        invariant
            v@ == s@,
            n == v@.len(),
            from <= n,
            pieces(s@, c) == views(r@) + pieces(after(s@, from as nat), c),
        decreases n - from,
    {
        let i = find_char(&v, from, c);
        let ghost rest = after(s@, from as nat);
        let ghost before = r@;
        proof {
            first_index_is_first(rest, c);
        }
        r.push(string_from(&v, from, i));
        assert(r@[before.len() as int]@ == s@.subrange(from as int, i as int));
        assert(rest.subrange(0, i - from) =~= s@.subrange(from as int, i as int));
        assert(views(r@) =~= views(before) + seq![rest.subrange(0, i - from)]);
        if i >= n {
            assert(rest.subrange(0, i - from) =~= rest);
            assert(views(r@) =~= pieces(s@, c));
            return r;
        }
        assert(rest.subrange(i - from + 1, rest.len() as int) =~= after(s@, (i + 1) as nat));
        assert(views(before) + (seq![rest.subrange(0, i - from)] + pieces(
            after(s@, (i + 1) as nat),
            c,
        )) =~= views(r@) + pieces(after(s@, (i + 1) as nat), c));
        from = i + 1;
    }
}

// ---- Decimal numbers ----

/// The decimal digit `d` as a character.
pub open spec fn digit(d: nat) -> char {
    (48 + d) as char
}

/// `n` in decimal, without leading zeros.
pub open spec fn decimal(n: nat) -> Seq<char>
    decreases n,
{
    if n < 10 {
        seq![digit(n)]
    } else {
        decimal(n / 10).push(digit(n % 10))
    }
}

/// `n` in decimal.
pub fn decimal_string(n: u64) -> (r: String)
    ensures
        r@ == decimal(n as nat),
    decreases n,
{
    let d: u8 = (n % 10) as u8;
    let c: char = (48u8 + d) as char;
    if n < 10 {
        let mut r = String::new();
        r.push(c);
        assert(r@ =~= seq![digit(n as nat)]);
        r
    } else {
        let mut r = decimal_string(n / 10);
        r.push(c);
        r
    }
}

// ---- Laws ----

/// Two texts compare equal exactly when they have the same characters in the same
/// places.
pub proof fn equal_texts_have_equal_characters(a: &str, b: &str, r: bool)
    requires
        call_ensures(str_eq, (a, b), r),
    ensures
        r <==> a@.len() == b@.len() && forall|i: int|
            0 <= i < a@.len() ==> a@[i] == #[trigger] b@[i],
{
    if a@.len() == b@.len() && forall|i: int| 0 <= i < a@.len() ==> a@[i] == #[trigger] b@[i] {
        assert(a@ =~= b@);
    }
}

/// Lower case changes the letters `A` to `Z`, each to its small letter, and no other
/// character.
pub proof fn lower_case_is_letter_by_letter(s: &str, r: String)
    requires
        call_ensures(to_ascii_lowercase, (s,), r),
    ensures
        r@.len() == s@.len(),
        forall|i: int|
            0 <= i < s@.len() ==> (#[trigger] r@[i]) as u32 == (if 'A' <= s@[i] <= 'Z' {
                s@[i] as u32 + 32
            } else {
                s@[i] as u32 as int
            }),
{
    assert forall|i: int| 0 <= i < s@.len() implies (#[trigger] r@[i]) as u32 == (if 'A' <= s@[i]
        <= 'Z' {
        s@[i] as u32 + 32
    } else {
        s@[i] as u32 as int
    }) by {
        assert(r@[i] == lower_char(s@[i]));
    }
}

/// A letter is at least `A` and at most `Z` in one case, or at least `a` and at most `z`
/// in the other: two characters are the same but for case exactly when they are equal or
/// such a pair.
pub proof fn characters_alike(a: char, b: char)
    ensures
        lower_char(a) == lower_char(b) <==> {
            ||| a == b
            ||| 'A' <= a <= 'Z' && b as u32 == a as u32 + 32
            ||| 'A' <= b <= 'Z' && a as u32 == b as u32 + 32
        },
{
}

/// Two texts are equal but for case exactly when each character of one is that of the
/// other, or the same letter in the other case.
pub proof fn texts_alike(a: &str, b: &str, r: bool)
    requires
        call_ensures(eq_ignore_ascii_case, (a, b), r),
    ensures
        r <==> a@.len() == b@.len() && forall|i: int|
            0 <= i < a@.len() ==> {
                ||| a@[i] == #[trigger] b@[i]
                ||| 'A' <= a@[i] <= 'Z' && b@[i] as u32 == a@[i] as u32 + 32
                ||| 'A' <= b@[i] <= 'Z' && a@[i] as u32 == b@[i] as u32 + 32
            },
{
    let alike = a@.len() == b@.len() && forall|i: int|
        0 <= i < a@.len() ==> {
            ||| a@[i] == #[trigger] b@[i]
            ||| 'A' <= a@[i] <= 'Z' && b@[i] as u32 == a@[i] as u32 + 32
            ||| 'A' <= b@[i] <= 'Z' && a@[i] as u32 == b@[i] as u32 + 32
        };
    if r {
        assert(lower(a@).len() == a@.len() && lower(b@).len() == b@.len());
        assert forall|i: int| 0 <= i < a@.len() implies {
            ||| a@[i] == #[trigger] b@[i]
            ||| 'A' <= a@[i] <= 'Z' && b@[i] as u32 == a@[i] as u32 + 32
            ||| 'A' <= b@[i] <= 'Z' && a@[i] as u32 == b@[i] as u32 + 32
        } by {
            assert(lower(a@)[i] == lower(b@)[i]);
            characters_alike(a@[i], b@[i]);
        }
    }
    if alike {
        assert forall|i: int| 0 <= i < a@.len() implies lower(a@)[i] == lower(b@)[i] by {
            characters_alike(a@[i], b@[i]);
        }
        assert(lower(a@) =~= lower(b@));
    }
}

/// White space is what Unicode says it is: of the first characters the blank, the tab
/// and the line ends; no letter, no digit, no punctuation.
pub proof fn white_space_is_blank(c: char, r: bool)
    requires
        call_ensures(char_is_space, (c,), r),
    ensures
        c as u32 <= 0x7f ==> (r <==> c as u32 == 0x20 || 9 <= c as u32 <= 13),
        c as u32 > 0x7f ==> (r <==> seq![
            0x85u32,
            0xa0,
            0x1680,
            0x2000,
            0x2001,
            0x2002,
            0x2003,
            0x2004,
            0x2005,
            0x2006,
            0x2007,
            0x2008,
            0x2009,
            0x200a,
            0x2028,
            0x2029,
            0x202f,
            0x205f,
            0x3000,
        ].contains(c as u32)),
{
    let list = seq![
        0x85u32,
        0xa0,
        0x1680,
        0x2000,
        0x2001,
        0x2002,
        0x2003,
        0x2004,
        0x2005,
        0x2006,
        0x2007,
        0x2008,
        0x2009,
        0x200a,
        0x2028,
        0x2029,
        0x202f,
        0x205f,
        0x3000,
    ];
    let n = c as u32;
    if n > 0x7f && r {
        let i: int = if n == 0x85 {
            0
        } else if n == 0xa0 {
            1
        } else if n == 0x1680 {
            2
        } else if n <= 0x200a {
            3 + (n - 0x2000)
        } else if n == 0x2028 {
            14
        } else if n == 0x2029 {
            15
        } else if n == 0x202f {
            16
        } else if n == 0x205f {
            17
        } else {
            18
        };
        assert(list[i] == n);
    }
}

/// Trimming takes white space off both ends and nothing else: what is left stands in
/// the text, only white space is around it, and it neither starts nor ends with any.
pub proof fn trimming_takes_the_outer_space_alone(s: &str, r: &str)
    requires
        call_ensures(trim, (s,), r),
    ensures
        exists|front: Seq<char>, back: Seq<char>|
            s@ == #[trigger] (front + r@ + back) && (forall|i: int|
                0 <= i < front.len() ==> is_space(#[trigger] front[i])) && (forall|i: int|
                0 <= i < back.len() ==> is_space(#[trigger] back[i])),
        r@.len() > 0 ==> !is_space(r@[0]) && !is_space(r@.last()),
{
    let mid = trim_start_of(s@);
    trimmed_is_inner(s@);
    trimmed_has_no_outer_space(s@);
    trim_start_takes_space(s@);
    trim_end_takes_space(mid);
    trim_start_is_suffix(s@);
    trim_end_is_prefix(mid);
    let n = indent(s@);
    let front = s@.subrange(0, n);
    let back = s@.subrange(n + r@.len(), s@.len() as int);
    assert(s@ =~= front + r@ + back);
    assert forall|i: int| 0 <= i < back.len() implies is_space(#[trigger] back[i]) by {
        assert(back[i] == mid[r@.len() + i]);
    }
}

proof fn trim_start_takes_space(s: Seq<char>)
    ensures
        forall|i: int| 0 <= i < indent(s) ==> is_space(#[trigger] s[i]),
    decreases s.len(),
{
    trim_start_fits(s);
    if s.len() > 0 && is_space(s[0]) {
        let rest = s.drop_first();
        trim_start_takes_space(rest);
        assert forall|i: int| 0 <= i < indent(s) implies is_space(#[trigger] s[i]) by {
            if i > 0 {
                assert(rest[i - 1] == s[i]);
            }
        }
    }
}

proof fn trim_end_takes_space(s: Seq<char>)
    ensures
        forall|i: int| trim_end_of(s).len() <= i < s.len() ==> is_space(#[trigger] s[i]),
    decreases s.len(),
{
    trim_end_fits(s);
    if s.len() > 0 && is_space(s.last()) {
        let rest = s.drop_last();
        trim_end_takes_space(rest);
        assert forall|i: int| trim_end_of(s).len() <= i < s.len() implies is_space(
            #[trigger] s[i],
        ) by {
            if i < rest.len() {
                assert(rest[i] == s[i]);
            }
        }
    }
}

/// A text is cut in two at its first separator: the separator stands between the two
/// sides, and the left side holds none.
pub proof fn cutting_once_keeps_the_text(s: &str, c: char, r: Option<(&str, &str)>)
    requires
        call_ensures(split_once, (s, c), r),
    ensures
        match r {
            Some(p) => s@ == p.0@.push(c) + p.1@ && !p.0@.contains(c),
            None => !s@.contains(c),
        },
{
    first_index_is_first(s@, c);
    match r {
        Some(p) => {
            assert(s@ =~= p.0@.push(c) + p.1@);
        },
        None => {},
    }
}

/// The pieces of a text, with the separator between each two.
pub open spec fn joined(parts: Seq<Seq<char>>, c: char) -> Seq<char>
    decreases parts.len(),
{
    if parts.len() == 0 {
        Seq::empty()
    } else if parts.len() == 1 {
        parts[0]
    } else {
        parts[0].push(c) + joined(parts.drop_first(), c)
    }
}

/// A text is cut at every separator and nowhere else: the pieces, joined again, are the
/// text, and no piece holds a separator.
pub proof fn cutting_everywhere_keeps_the_text(s: &str, c: char, r: Vec<String>)
    requires
        call_ensures(split, (s, c), r),
    ensures
        r@.len() > 0,
        joined(views(r@), c) == s@,
        forall|i: int| 0 <= i < r@.len() ==> !(#[trigger] r@[i])@.contains(c),
{
    pieces_join(s@, c);
    assert(views(r@).len() == r@.len());
    assert forall|i: int| 0 <= i < r@.len() implies !(#[trigger] r@[i])@.contains(c) by {
        assert(views(r@)[i] == r@[i]@);
        pieces_are_separate(s@, c, i);
    }
}

proof fn pieces_join(s: Seq<char>, c: char)
    ensures
        pieces(s, c).len() > 0,
        joined(pieces(s, c), c) == s,
    decreases s.len(),
{
    first_index_is_first(s, c);
    let i = first_index(s, c);
    if i < s.len() {
        let rest = s.subrange(i + 1, s.len() as int);
        pieces_join(rest, c);
        assert(pieces(s, c).drop_first() =~= pieces(rest, c));
        assert(joined(pieces(s, c), c) =~= s);
    }
}

/// A text starts with another exactly when it is that other with something behind it, and
/// what is left after it is that something.
pub proof fn a_prefix_stands_in_front(s: &str, p: &str, starts: bool, rest: Option<&str>)
    requires
        call_ensures(starts_with, (s, p), starts),
        call_ensures(strip_prefix, (s, p), rest),
    ensures
        starts <==> exists|t: Seq<char>| s@ == #[trigger] (p@ + t),
        rest is Some <==> starts,
        rest matches Some(t) ==> s@ == p@ + t@,
{
    if starts {
        assert(s@ =~= p@ + after(s@, p@.len()));
    }
    if exists|t: Seq<char>| s@ == #[trigger] (p@ + t) {
        let t = choose|t: Seq<char>| s@ == #[trigger] (p@ + t);
        assert(s@.subrange(0, p@.len() as int) =~= p@);
    }
    if rest is Some {
        assert(s@ =~= p@ + rest->0@);
    }
}

/// A text ends with another exactly when it is that other with something before it, and
/// what is left before it is that something.
pub proof fn a_suffix_stands_behind(s: &str, p: &str, ends: bool, rest: Option<&str>)
    requires
        call_ensures(ends_with, (s, p), ends),
        call_ensures(strip_suffix, (s, p), rest),
    ensures
        ends <==> exists|t: Seq<char>| s@ == #[trigger] (t + p@),
        rest is Some <==> ends,
        rest matches Some(t) ==> s@ == t@ + p@,
{
    let n = s@.len() - p@.len();
    if ends {
        assert(s@ =~= s@.subrange(0, n) + p@);
    }
    if exists|t: Seq<char>| s@ == #[trigger] (t + p@) {
        let t = choose|t: Seq<char>| s@ == #[trigger] (t + p@);
        assert(s@.subrange(n, s@.len() as int) =~= p@);
    }
    if rest is Some {
        assert(s@ =~= rest->0@ + p@);
    }
}

/// A text contains another exactly when it is that other with something on both sides.
pub proof fn a_part_stands_inside(s: &str, p: &str, r: bool)
    requires
        call_ensures(contains, (s, p), r),
    ensures
        r <==> exists|a: Seq<char>, b: Seq<char>| s@ == #[trigger] (a + p@ + b),
{
    if r {
        let i = choose|i: int| occurs_at(s@, p@, i);
        let a = s@.subrange(0, i);
        let b = s@.subrange(i + p@.len(), s@.len() as int);
        assert(s@ =~= a + p@ + b);
    }
    if exists|a: Seq<char>, b: Seq<char>| s@ == #[trigger] (a + p@ + b) {
        let (a, b) = choose|a: Seq<char>, b: Seq<char>| s@ == #[trigger] (a + p@ + b);
        assert(s@.subrange(a.len() as int, (a.len() + p@.len()) as int) =~= p@);
        assert(occurs_at(s@, p@, a.len() as int));
    }
}

/// The number that a row of decimal digits stands for.
pub open spec fn number_of(s: Seq<char>) -> int
    decreases s.len(),
{
    if s.len() == 0 {
        0
    } else {
        10 * number_of(s.drop_last()) + (s.last() as u32 - 48)
    }
}

/// A number in decimal is made of digits, has no leading zero but for zero itself, and
/// reads as the number.
pub proof fn a_decimal_reads_as_its_number(n: u64, r: String)
    requires
        call_ensures(decimal_string, (n,), r),
    ensures
        number_of(r@) == n,
        r@.len() > 0,
        forall|i: int| 0 <= i < r@.len() ==> '0' <= #[trigger] r@[i] <= '9',
        r@[0] == '0' ==> r@.len() == 1,
{
    decimal_facts(n as nat);
}

proof fn decimal_facts(n: nat)
    ensures
        number_of(decimal(n)) == n,
        decimal(n).len() > 0,
        forall|i: int| 0 <= i < decimal(n).len() ==> '0' <= #[trigger] decimal(n)[i] <= '9',
        decimal(n)[0] == '0' <==> n == 0,
        n == 0 ==> decimal(n).len() == 1,
    decreases n,
{
    if n < 10 {
        assert(decimal(n).drop_last() =~= Seq::empty());
        assert(number_of(decimal(n).drop_last()) == 0);
        assert(decimal(n).last() as u32 == 48 + n);
    } else {
        decimal_facts(n / 10);
        assert(decimal(n).drop_last() =~= decimal(n / 10));
        assert(decimal(n)[0] == decimal(n / 10)[0]);
        assert(decimal(n).last() as u32 == 48 + n % 10);
    }
}

} // verus!
