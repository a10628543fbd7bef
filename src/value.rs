//! Structured values carried as message payloads, and lookups in their
//! dictionaries.
use vstd::prelude::*;

verus! {

/// A property-list value.
///
/// Dictionaries keep their entries in order; their keys are unique (see
/// [`dict_wf`]). A real number is held as its IEEE-754 bit pattern and a date
/// as its XML text form (`2016-09-01T12:00:00Z`), so that both compare exactly.
#[derive(Debug, PartialEq)]
pub enum Value {
    Array(Vec<Value>),
    Dictionary(Dictionary),
    Boolean(bool),
    Data(Vec<u8>),
    Date(String),
    Real(u64),
    Integer(i64),
    String(String),
    Uid(u64),
}

/// Dictionary entries, in order.
pub type Dictionary = Vec<(String, Value)>;

/// No key occurs twice among the entries.
pub open spec fn dict_wf(d: Seq<(String, Value)>) -> bool {
    forall|i: int, j: int| 0 <= i < j < d.len() ==> d[i].0@ != d[j].0@
}

/// The value stored under `key`: that of the first entry with this key.
pub open spec fn lookup(d: Seq<(String, Value)>, key: Seq<char>) -> Option<Value>
    decreases d.len(),
{
    if d.len() == 0 {
        None
    } else if d[0].0@ == key {
        Some(d[0].1)
    } else {
        lookup(d.drop_first(), key)
    }
}

/// Index of the first entry whose key is `key`, or `None` if there is none.
pub fn find(d: &Dictionary, key: &str) -> (r: Option<usize>)
    ensures
        match r {
            Some(i) => {
                &&& i < d@.len()
                &&& d@[i as int].0@ == key@
                &&& forall|j: int| 0 <= j < i ==> d@[j].0@ != key@
                &&& lookup(d@, key@) == Some(d@[i as int].1)
            },
            None => lookup(d@, key@) is None,
        },
{
    let k = key.to_owned();
    let mut i: usize = 0;
    assert(d@.subrange(0, d@.len() as int) == d@);
    while i < d.len()
        invariant
            i <= d@.len(),
            k@ == key@,
            forall|j: int| 0 <= j < i ==> d@[j].0@ != key@,
            lookup(d@, key@) == lookup(d@.subrange(i as int, d@.len() as int), key@),
        decreases d@.len() - i,
    {
        let ghost rest = d@.subrange(i as int, d@.len() as int);
        assert(rest.drop_first() == d@.subrange(i + 1, d@.len() as int));
        if d[i].0 == k {
            return Some(i);
        }
        i = i + 1;
    }
    None
}

/// The value under `key`, if any.
pub fn get<'a>(d: &'a Dictionary, key: &str) -> (r: Option<&'a Value>)
    ensures
        match r {
            Some(v) => lookup(d@, key@) == Some(*v),
            None => lookup(d@, key@) is None,
        },
{
    match find(d, key) {
        Some(i) => Some(&d[i].1),
        None => None,
    }
}

/// Whether `v` is a string whose characters are `s`.
pub open spec fn is_string(v: Value, s: Seq<char>) -> bool {
    match v {
        Value::String(t) => t@ == s,
        _ => false,
    }
}

/// A message dictionary holding only the request kind `mtype`.
pub fn message_type(mtype: &str) -> (r: Dictionary)
    ensures
        r@.len() == 1,
        r@[0].0@ == "MessageType"@,
        is_string(r@[0].1, mtype@),
        dict_wf(r@),
{
    let mut d: Dictionary = Vec::new();
    d.push(("MessageType".to_owned(), Value::String(mtype.to_owned())));
    d
}

} // verus!
