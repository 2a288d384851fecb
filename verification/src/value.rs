//! The structured values a script returns.
//!
//! The engine hands back untyped values; at the boundary they are read
//! into this tree: null, booleans, numbers (kept as their decimal
//! token), strings, arrays, and objects as ordered key/value pairs.
//! The extraction protocol and the serializers work on this tree alone.

use vstd::prelude::*;

verus! {

/// A structured value returned by a script.
pub enum Value {
    Null,
    Bool(bool),
    /// A number, kept as the decimal token it is rendered as.
    Num(String),
    Str(String),
    Arr(Vec<Value>),
    /// An object: its fields in order.  Keys are expected to be unique;
    /// a lookup takes the first binding of a key.
    Obj(Vec<(String, Value)>),
}

/// The first binding of `key` among `pairs`.
pub open spec fn lookup_spec(pairs: Seq<(String, Value)>, key: Seq<char>) -> Option<Value>
    decreases pairs.len(),
{
    if pairs.len() == 0 {
        None
    } else if pairs[0].0@ == key {
        Some(pairs[0].1)
    } else {
        lookup_spec(pairs.drop_first(), key)
    }
}

/// Whether the object fields `pairs` bind `key`.
pub open spec fn has_key_spec(pairs: Seq<(String, Value)>, key: Seq<char>) -> bool {
    lookup_spec(pairs, key) is Some
}

/// Whether two strings hold the same characters.
pub fn str_eq(a: &str, b: &str) -> (r: bool)
    ensures
        r == (a@ == b@),
{
    let an = a.unicode_len();
    let bn = b.unicode_len();
    if an != bn {
        proof {
            assert(a@.len() != b@.len());
        }
        return false;
    }
    let mut i: usize = 0;
    while i < an
        invariant
            an == a@.len(),
            a@.len() == b@.len(),
            i <= a@.len(),
            forall|j: int| 0 <= j < i ==> a@[j] == b@[j],
        decreases an - i,
    {
        if a.get_char(i) != b.get_char(i) {
            return false;
        }
        i = i + 1;
    }
    proof {
        assert(a@ =~= b@);
    }
    true
}

/// The first binding of `key`, executably.
pub fn lookup<'a>(pairs: &'a Vec<(String, Value)>, key: &str) -> (r: Option<&'a Value>)
    ensures
        match r {
            Some(v) => lookup_spec(pairs@, key@) == Some(*v),
            None => lookup_spec(pairs@, key@) is None,
        },
{
    let mut i: usize = 0;
    proof {
        assert(pairs@.skip(0) =~= pairs@);
    }
    while i < pairs.len()
        invariant
            i <= pairs@.len(),
            lookup_spec(pairs@, key@) == lookup_spec(pairs@.skip(i as int), key@),
        decreases pairs@.len() - i,
    {
        let ghost rest = pairs@.skip(i as int);
        proof {
            assert(rest.len() > 0);
            assert(rest[0] == pairs@[i as int]);
            assert(rest.drop_first() =~= pairs@.skip(i + 1 as int));
        }
        if str_eq(pairs[i].0.as_str(), key) {
            return Some(&pairs[i].1);
        }
        i = i + 1;
    }
    proof {
        assert(pairs@.skip(pairs@.len() as int) =~= Seq::<(String, Value)>::empty());
    }
    None
}

/// Whether the object fields bind `key`, executably.
pub fn has_key(pairs: &Vec<(String, Value)>, key: &str) -> (r: bool)
    ensures
        r == has_key_spec(pairs@, key@),
{
    match lookup(pairs, key) {
        Some(_) => true,
        None => false,
    }
}

} // verus!
