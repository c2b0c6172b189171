//! The relation between two name universes, held in a copy-on-write map.

use vstd::prelude::*;
use hashcow::CowHashMap;
use std::borrow::ToOwned;
use std::hash::Hash;

verus! {

#[verifier::external_type_specification]
#[verifier::external_body]
#[verifier::reject_recursive_types(K)]
#[verifier::reject_recursive_types(V)]
pub struct ExCowHashMap<'a, K: Hash + ?Sized + PartialEq + Eq + ToOwned, V: ToOwned + ?Sized>(
    CowHashMap<'a, K, V>,
);

/// What a copy-on-write name map holds, as a map of character sequences.
pub uninterp spec fn cow_contents(m: CowHashMap<'static, str, str>) -> Map<Seq<char>, Seq<char>>;

/// Relies on `CowHashMap::new`: a new map holds no entries.
#[verifier::external_body]
fn cow_new() -> (r: CowHashMap<'static, str, str>)
    ensures
        cow_contents(r).is_empty(),
{
    CowHashMap::new()
}

/// Relies on `CowHashMap::insert_owned`: the key now maps to the value and
/// every other entry is kept.
#[verifier::external_body]
fn cow_insert(m: &mut CowHashMap<'static, str, str>, key: String, value: String)
    ensures
        cow_contents(*final(m)) == cow_contents(*old(m)).insert(key@, value@),
{
    m.insert_owned(key, value);
}

/// Relies on `CowHashMap::get`: the value stored under the key, if any.
#[verifier::external_body]
fn cow_get(m: &CowHashMap<'static, str, str>, key: &str) -> (r: Option<String>)
    ensures
        match r {
            Some(v) => cow_contents(*m).contains_key(key@) && cow_contents(*m)[key@] == v@,
            None => !cow_contents(*m).contains_key(key@),
        },
{
    m.get(key).map(str::to_owned)
}

/// A relation from one naming system to another; keys are unique and a later
/// insertion under the same key replaces the earlier value.
pub struct NameTable {
    inner: CowHashMap<'static, str, str>,
}

impl View for NameTable {
    type V = Map<Seq<char>, Seq<char>>;

    closed spec fn view(&self) -> Map<Seq<char>, Seq<char>> {
        cow_contents(self.inner)
    }
}

impl NameTable {
    /// An empty relation.
    pub fn new() -> (r: NameTable)
        ensures
            r@ == Map::<Seq<char>, Seq<char>>::empty(),
    {
        let r = NameTable { inner: cow_new() };
        assert(r@ =~= Map::<Seq<char>, Seq<char>>::empty());
        r
    }

    /// Stores `value` under `key`, replacing any earlier value of `key`.
    pub fn insert(&mut self, key: String, value: String)
        ensures
            final(self)@ == old(self)@.insert(key@, value@),
    {
        cow_insert(&mut self.inner, key, value);
    }

    /// The value stored under `key`, if any.
    pub fn get(&self, key: &str) -> (r: Option<String>)
        ensures
            match r {
                Some(v) => self@.contains_key(key@) && self@[key@] == v@,
                None => !self@.contains_key(key@),
            },
    {
        cow_get(&self.inner, key)
    }
}

} // verus!
