//! A parsed TOML document as a tree of plain values, and the reading of
//! fields out of its tables.

use vstd::prelude::*;
use crate::sample::str_eq;

verus! {

#[verifier::external_type_specification]
#[verifier::external_body]
#[verifier::reject_recursive_types(K)]
#[verifier::reject_recursive_types(V)]
pub struct ExTomlMap<K, V>(toml::map::Map<K, V>);

#[verifier::external_type_specification]
#[verifier::external_body]
pub struct ExTomlValue(toml::Value);

#[verifier::external_type_specification]
#[verifier::external_body]
pub struct ExTomlError(toml::de::Error);

/// A TOML value. Floats and date-times, which no setting uses, are `Other`.
#[derive(Debug)]
pub enum TomlValue {
    Str(String),
    Int(i64),
    Bool(bool),
    Array(Vec<TomlValue>),
    /// A table's keys and their values, in the order in which the parser
    /// lists them.
    Table(Vec<String>, Vec<TomlValue>),
    Other,
}

/// The tree of the TOML document `text`; `None` where `text` is no TOML
/// document. The whole document is a `Table`.
pub uninterp spec fn toml_document(text: Seq<char>) -> Option<TomlValue>;

/// Relies on `toml::from_str`: parses a TOML document into its top-level
/// table, given here as a tree of plain values.
#[verifier::external_body]
pub(crate) fn parse_document(text: &str) -> (r: Result<TomlValue, toml::de::Error>)
    ensures
        match r {
            Ok(d) => toml_document(text@) == Some(d) && d is Table,
            Err(_) => toml_document(text@) is None,
        },
{
    toml::from_str::<toml::Table>(text).map(|t| table_tree(&t))
}

/// Relies on the variants of `toml::Value`: the same value as a tree.
#[verifier::external_body]
fn value_tree(v: &toml::Value) -> TomlValue {
    match v {
        toml::Value::String(s) => TomlValue::Str(s.clone()),
        toml::Value::Integer(i) => TomlValue::Int(*i),
        toml::Value::Boolean(b) => TomlValue::Bool(*b),
        toml::Value::Array(a) => TomlValue::Array(a.iter().map(value_tree).collect()),
        toml::Value::Table(t) => table_tree(t),
        _ => TomlValue::Other,
    }
}

/// Relies on `toml::map::Map::keys` and `Map::values`, which list a table in
/// one order: the entries of a table as a tree.
#[verifier::external_body]
fn table_tree(t: &toml::Table) -> TomlValue {
    TomlValue::Table(t.keys().cloned().collect(), t.values().map(value_tree).collect())
}

/// A table: its keys and its values.
pub type TableRef<'a> = (&'a Vec<String>, &'a Vec<TomlValue>);

/// The entries of a table, each key with its value.
pub open spec fn entries(keys: Seq<String>, values: Seq<TomlValue>) -> Seq<(Seq<char>, TomlValue)> {
    Seq::new(
        if keys.len() <= values.len() {
            keys.len()
        } else {
            values.len()
        },
        |i: int| (keys[i]@, values[i]),
    )
}

pub open spec fn tab(t: TableRef) -> Seq<(Seq<char>, TomlValue)> {
    entries(t.0@, t.1@)
}

/// The value under `k` in the entries `t` (the first, were there several).
pub open spec fn lookup(t: Seq<(Seq<char>, TomlValue)>, k: Seq<char>) -> Option<TomlValue>
    decreases t.len(),
{
    if t.len() == 0 {
        None
    } else if t[0].0 == k {
        Some(t[0].1)
    } else {
        lookup(t.drop_first(), k)
    }
}

/// The value under `k`.
pub fn find<'a>(t: TableRef<'a>, k: &str) -> (r: Option<&'a TomlValue>)
    ensures
        match r {
            Some(v) => lookup(tab(t), k@) == Some(*v),
            None => lookup(tab(t), k@) is None,
        },
{
    let ghost e = tab(t);
    let n = if t.0.len() <= t.1.len() {
        t.0.len()
    } else {
        t.1.len()
    };
    let mut i: usize = 0;
    assert(e.subrange(0, n as int) =~= e);
    while i < n
        invariant
            i <= n == e.len(),
            e == tab(t),
            lookup(e, k@) == lookup(e.subrange(i as int, n as int), k@),
        decreases n - i,
    {
        assert(e.subrange(i as int, n as int).drop_first() =~= e.subrange(i + 1, n as int));
        assert(e.subrange(i as int, n as int)[0] == e[i as int]);
        assert(e[i as int] == (t.0@[i as int]@, t.1@[i as int]));
        if str_eq(t.0[i].as_str(), k) {
            return Some(&t.1[i]);
        }
        i = i + 1;
    }
    None
}

/// A string field: `Some(None)` where missing, `None` where not a string.
pub open spec fn str_field(t: Seq<(Seq<char>, TomlValue)>, k: Seq<char>) -> Option<Option<Seq<char>>> {
    match lookup(t, k) {
        None => Some(None),
        Some(TomlValue::Str(s)) => Some(Some(s@)),
        Some(_) => None,
    }
}

/// A boolean field: false where missing, `None` where not a boolean.
pub open spec fn flag_field(t: Seq<(Seq<char>, TomlValue)>, k: Seq<char>) -> Option<bool> {
    match lookup(t, k) {
        None => Some(false),
        Some(TomlValue::Bool(b)) => Some(b),
        Some(_) => None,
    }
}

/// A table field: `Some(None)` where missing, `None` where not a table.
pub open spec fn table_field(t: Seq<(Seq<char>, TomlValue)>, k: Seq<char>) -> Option<
    Option<Seq<(Seq<char>, TomlValue)>>,
> {
    match lookup(t, k) {
        None => Some(None),
        Some(TomlValue::Table(ks, vs)) => Some(Some(entries(ks@, vs@))),
        Some(_) => None,
    }
}

/// An array field: `Some(None)` where missing, `None` where not an array.
pub open spec fn array_field(t: Seq<(Seq<char>, TomlValue)>, k: Seq<char>) -> Option<
    Option<Seq<TomlValue>>,
> {
    match lookup(t, k) {
        None => Some(None),
        Some(TomlValue::Array(a)) => Some(Some(a@)),
        Some(_) => None,
    }
}

pub fn get_str(t: TableRef, k: &str) -> (r: Option<Option<String>>)
    ensures
        match r {
            Some(Some(s)) => str_field(tab(t), k@) == Some(Some(s@)),
            Some(None) => str_field(tab(t), k@) == Some(None::<Seq<char>>),
            None => str_field(tab(t), k@) is None,
        },
{
    match find(t, k) {
        None => Some(None),
        Some(TomlValue::Str(s)) => Some(Some(s.clone())),
        Some(_) => None,
    }
}

pub fn get_flag(t: TableRef, k: &str) -> (r: Option<bool>)
    ensures
        r == flag_field(tab(t), k@),
{
    match find(t, k) {
        None => Some(false),
        Some(TomlValue::Bool(b)) => Some(*b),
        Some(_) => None,
    }
}

pub fn get_table<'a>(t: TableRef<'a>, k: &str) -> (r: Option<
    Option<TableRef<'a>>,
>)
    ensures
        match r {
            Some(Some(e)) => table_field(tab(t), k@) == Some(Some(tab(e))),
            Some(None) => table_field(tab(t), k@) == Some(None::<Seq<(Seq<char>, TomlValue)>>),
            None => table_field(tab(t), k@) is None,
        },
{
    match find(t, k) {
        None => Some(None),
        Some(TomlValue::Table(ks, vs)) => Some(Some((ks, vs))),
        Some(_) => None,
    }
}

pub fn get_array<'a>(t: TableRef<'a>, k: &str) -> (r: Option<
    Option<&'a Vec<TomlValue>>,
>)
    ensures
        match r {
            Some(Some(a)) => array_field(tab(t), k@) == Some(Some(a@)),
            Some(None) => array_field(tab(t), k@) == Some(None::<Seq<TomlValue>>),
            None => array_field(tab(t), k@) is None,
        },
{
    match find(t, k) {
        None => Some(None),
        Some(TomlValue::Array(a)) => Some(Some(a)),
        Some(_) => None,
    }
}

/// `f` of every element, where `f` gives one for each; else `None`.
pub open spec fn all_of<A, B>(s: Seq<A>, f: spec_fn(A) -> Option<B>) -> Option<Seq<B>>
    decreases s.len(),
{
    if s.len() == 0 {
        Some(Seq::empty())
    } else {
        match f(s[0]) {
            None => None,
            Some(x) => prepend(seq![x], all_of(s.drop_first(), f)),
        }
    }
}

/// `p` followed by the sequence in `o`, if there is one.
pub open spec fn prepend<B>(p: Seq<B>, o: Option<Seq<B>>) -> Option<Seq<B>> {
    match o {
        Some(r) => Some(p + r),
        None => None,
    }
}

/// One step of a loop that computes `all_of` from the front.
pub proof fn lemma_all_of_step<A, B>(s: Seq<A>, f: spec_fn(A) -> Option<B>, done: Seq<B>, i: int)
    requires
        0 <= i < s.len(),
    ensures
        f(s[i]) is None ==> prepend(done, all_of(s.subrange(i, s.len() as int), f)) is None,
        f(s[i]) is Some ==> prepend(done, all_of(s.subrange(i, s.len() as int), f)) == prepend(
            done.push(f(s[i])->0),
            all_of(s.subrange(i + 1, s.len() as int), f),
        ),
{
    let n = s.len() as int;
    assert(s.subrange(i, n).drop_first() =~= s.subrange(i + 1, n));
    assert(s.subrange(i, n)[0] == s[i]);
    if f(s[i]) is Some {
        let x = f(s[i])->0;
        match all_of(s.subrange(i + 1, n), f) {
            Some(r) => {
                assert(done + (seq![x] + r) =~= done.push(x) + r);
            },
            None => {},
        }
    }
}

/// The start and end of a loop that computes `all_of` from the front.
pub proof fn lemma_all_of_ends<A, B>(s: Seq<A>, f: spec_fn(A) -> Option<B>, done: Seq<B>)
    ensures
        all_of(s, f) == prepend(Seq::<B>::empty(), all_of(s.subrange(0, s.len() as int), f)),
        prepend(done, all_of(s.subrange(s.len() as int, s.len() as int), f)) == Some(done),
{
    assert(s.subrange(0, s.len() as int) =~= s);
    assert(s.subrange(s.len() as int, s.len() as int).len() == 0);
    assert(done + Seq::<B>::empty() =~= done);
    match all_of(s, f) {
        Some(r) => {
            assert(Seq::<B>::empty() + r =~= r);
        },
        None => {},
    }
}

} // verus!
