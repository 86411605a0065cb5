//! TOML documents as plain values.
//!
//! The `toml` crate parses; this module turns what it hands back into a tree of
//! the library's own, which the rest of the dialplan code reads.
use vstd::prelude::*;

verus! {

/// A TOML value. The dialplan reads neither floats nor dates: those are `Other`.
pub enum Doc {
    Text(Seq<char>),
    Integer(i64),
    Flag(bool),
    Items(Seq<Doc>),
    Table(Seq<(Seq<char>, Doc)>),
    Other,
}

/// A value of the `toml` crate.
#[verifier::external_type_specification]
#[verifier::external_body]
pub struct ExTomlValue(toml::Value);

/// A table of the `toml` crate.
#[verifier::external_type_specification]
#[verifier::external_body]
#[verifier::reject_recursive_types(K)]
#[verifier::reject_recursive_types(V)]
pub struct ExTomlMap<K, V>(toml::map::Map<K, V>);

/// What a `toml::Value` holds.
pub uninterp spec fn toml_value(v: toml::Value) -> Doc;

/// What a `toml::Table` holds: its entries, in the order in which it is walked.
pub uninterp spec fn toml_entries(t: toml::map::Map<String, toml::Value>) -> Seq<(Seq<char>, Doc)>;

/// What `toml::from_str` makes of a text: the entries of the document, or the
/// text of its error.
pub uninterp spec fn toml_parsed(input: Seq<char>) -> Result<
    Seq<(Seq<char>, Doc)>,
    Seq<char>,
>;

/// `toml::from_str` into a table, with the error as its text. The grammar of
/// TOML is not spelled out: the outcome depends on the text alone.
#[verifier::external_body]
fn parse_document(input: &str) -> (r: Result<toml::map::Map<String, toml::Value>, String>)
    ensures
        match r {
            Ok(t) => toml_parsed(input@) == Ok::<Seq<(Seq<char>, Doc)>, Seq<char>>(toml_entries(t)),
            Err(m) => toml_parsed(input@) == Err::<Seq<(Seq<char>, Doc)>, Seq<char>>(m@),
        },
{
    toml::from_str::<toml::Table>(input).map_err(|e| e.to_string())
}

/// One level of a `toml::Value`.
enum Node<'a> {
    Text(&'a String),
    Integer(i64),
    Flag(bool),
    Items(&'a Vec<toml::Value>),
    Table(&'a toml::map::Map<String, toml::Value>),
    Other,
}

/// Tells the variants of `toml::Value` apart. Floats and dates are `Other`.
#[verifier::external_body]
fn open_value(v: &toml::Value) -> (r: Node<'_>)
    ensures
        match (toml_value(*v), r) {
            (Doc::Text(s), Node::Text(t)) => t@ == s,
            (Doc::Integer(i), Node::Integer(j)) => i == j,
            (Doc::Flag(a), Node::Flag(b)) => a == b,
            (Doc::Items(s), Node::Items(a)) => s == Seq::new(
                a@.len(),
                |i: int| toml_value(a@[i]),
            ),
            (Doc::Table(s), Node::Table(t)) => s == toml_entries(*t),
            (Doc::Other, Node::Other) => true,
            _ => false,
        },
{
    match v {
        toml::Value::String(s) => Node::Text(s),
        toml::Value::Integer(i) => Node::Integer(*i),
        toml::Value::Boolean(b) => Node::Flag(*b),
        toml::Value::Array(a) => Node::Items(a),
        toml::Value::Table(t) => Node::Table(t),
        toml::Value::Float(_) => Node::Other,
        toml::Value::Datetime(_) => Node::Other,
    }
}

/// The views of the entries that a walk over a table gives.
spec fn walked(v: Seq<(&String, &toml::Value)>) -> Seq<(Seq<char>, Doc)> {
    Seq::new(v.len(), |i: int| (v[i].0@, toml_value(*v[i].1)))
}

/// `Map::iter`: the entries of a table, in order.
#[verifier::external_body]
fn table_entries<'a>(t: &'a toml::map::Map<String, toml::Value>) -> (r: Vec<
    (&'a String, &'a toml::Value),
>)
    ensures
        walked(r@) == toml_entries(*t),
{
    t.iter().collect()
}

/// A TOML value as plain data.
#[derive(Debug)]
pub enum TomlValue {
    Text(String),
    Integer(i64),
    Flag(bool),
    Items(Vec<TomlValue>),
    Table(Vec<(String, TomlValue)>),
    Other,
}

impl TomlValue {
    /// The value as a mathematical tree.
    pub open spec fn doc(self) -> Doc
        decreases self,
    {
        match self {
            TomlValue::Text(s) => Doc::Text(s@),
            TomlValue::Integer(i) => Doc::Integer(i),
            TomlValue::Flag(b) => Doc::Flag(b),
            TomlValue::Items(v) => Doc::Items(
                Seq::new(
                    v@.len(),
                    |i: int|
                        if 0 <= i < v@.len() {
                            v@[i].doc()
                        } else {
                            Doc::Other
                        },
                ),
            ),
            TomlValue::Table(v) => Doc::Table(
                Seq::new(
                    v@.len(),
                    |i: int|
                        if 0 <= i < v@.len() {
                            (v@[i].0@, v@[i].1.doc())
                        } else {
                            (seq![], Doc::Other)
                        },
                ),
            ),
            TomlValue::Other => Doc::Other,
        }
    }
}

/// The entries of a table as mathematical trees.
pub open spec fn entries(v: Seq<(String, TomlValue)>) -> Seq<(Seq<char>, Doc)> {
    Seq::new(v.len(), |i: int| (v[i].0@, v[i].1.doc()))
}

/// The elements of an array as mathematical trees.
pub open spec fn items(v: Seq<TomlValue>) -> Seq<Doc> {
    Seq::new(v.len(), |i: int| v[i].doc())
}

/// A table's tree is made of its entries' trees, an array's of its elements'.
pub proof fn doc_of_parts(v: TomlValue)
    ensures
        match v {
            TomlValue::Items(x) => v.doc() == Doc::Items(items(x@)),
            TomlValue::Table(x) => v.doc() == Doc::Table(entries(x@)),
            _ => true,
        },
{
    match v {
        TomlValue::Items(x) => {
            assert(v.doc()->Items_0 =~= items(x@));
        },
        TomlValue::Table(x) => {
            assert(v.doc()->Table_0 =~= entries(x@));
        },
        _ => {},
    }
}

fn read_value(v: &toml::Value) -> (r: TomlValue)
    ensures
        r.doc() == toml_value(*v),
    decreases toml_value(*v), 0int,
{
    let ghost whole = toml_value(*v);
    match open_value(v) {
        Node::Text(s) => TomlValue::Text(s.clone()),
        Node::Integer(i) => TomlValue::Integer(i),
        Node::Flag(b) => TomlValue::Flag(b),
        Node::Other => TomlValue::Other,
        Node::Items(a) => {
            let mut out: Vec<TomlValue> = Vec::new();
            let mut i: usize = 0;
            while i < a.len()
                invariant
                    whole == toml_value(*v),
                    whole == Doc::Items(Seq::new(a@.len(), |i: int| toml_value(a@[i]))),
                    i <= a@.len(),
                    out@.len() == i,
                    forall|k: int| 0 <= k < i ==> (#[trigger] out@[k]).doc() == toml_value(a@[k]),
                decreases a@.len() - i,
            {
                assert(whole->Items_0[i as int] == toml_value(a@[i as int]));
                let x = read_value(&a[i]);
                out.push(x);
                i += 1;
            }
            let r = TomlValue::Items(out);
            proof {
                doc_of_parts(r);
                assert(items(out@) =~= whole->Items_0);
            }
            r
        },
        Node::Table(t) => {
            let out = read_table(t);
            let r = TomlValue::Table(out);
            proof {
                doc_of_parts(r);
            }
            r
        },
    }
}

fn read_table(t: &toml::map::Map<String, toml::Value>) -> (out: Vec<(String, TomlValue)>)
    ensures
        entries(out@) == toml_entries(*t),
    decreases toml_entries(*t), 1int,
{
    let list = table_entries(t);
    let ghost whole = toml_entries(*t);
    let mut out: Vec<(String, TomlValue)> = Vec::new();
    let mut i: usize = 0;
    while i < list.len()
        invariant
            whole == toml_entries(*t),
            whole == walked(list@),
            i <= list@.len(),
            out@.len() == i,
            forall|k: int|
                0 <= k < i ==> (#[trigger] out@[k]).0@ == list@[k].0@ && out@[k].1.doc()
                    == toml_value(*list@[k].1),
        decreases list@.len() - i,
    {
        let e = list[i];
        assert(whole[i as int] == (e.0@, toml_value(*e.1)));
        assert(decreases_to!(whole => whole[i as int]));
        assert(decreases_to!(whole[i as int] => whole[i as int].1));
        let x = read_value(e.1);
        out.push((e.0.clone(), x));
        i += 1;
    }
    assert(entries(out@) =~= whole);
    out
}

/// Parses a TOML document into its entries.
pub fn read_document(input: &str) -> (r: Result<Vec<(String, TomlValue)>, String>)
    ensures
        match r {
            Ok(v) => toml_parsed(input@) == Ok::<Seq<(Seq<char>, Doc)>, Seq<char>>(entries(v@)),
            Err(m) => toml_parsed(input@) == Err::<Seq<(Seq<char>, Doc)>, Seq<char>>(m@),
        },
{
    match parse_document(input) {
        Ok(t) => Ok(read_table(&t)),
        Err(m) => Err(m),
    }
}

} // verus!
