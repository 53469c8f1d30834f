//! The values extracted from one line, by field name.

use crate::value::{Value, ValueView};
use vstd::hash_map::StringHashMap;
use vstd::prelude::*;
use vstd::string::*;

verus! {

/// The values that one line yielded, keyed by the names of the fields they
/// were read from.
pub struct ParsedRecord {
    values: StringHashMap<Value>,
}

impl View for ParsedRecord {
    type V = Map<Seq<char>, ValueView>;

    closed spec fn view(&self) -> Map<Seq<char>, ValueView> {
        self.values@.map_values(|v: Value| v@)
    }
}

impl ParsedRecord {
    /// A record without values.
    pub fn new() -> (r: ParsedRecord)
        ensures
            r@ == Map::<Seq<char>, ValueView>::empty(),
    {
        let r = ParsedRecord { values: StringHashMap::new() };
        assert(r@ =~= Map::<Seq<char>, ValueView>::empty());
        r
    }

    /// Stores `value` under `name`, in place of what was stored there.
    pub fn insert(&mut self, name: &str, value: Value)
        ensures
            final(self)@ == old(self)@.insert(name@, value@),
    {
        self.values.insert(String::from_str(name), value);
        assert(self@ =~= old(self)@.insert(name@, value@));
    }

    /// The value stored under `name`, if there is one.
    pub fn get(&self, name: &str) -> (r: Option<&Value>)
        ensures
            r is Some <==> self@.contains_key(name@),
            r matches Some(v) ==> v@ == self@[name@],
    {
        self.values.get(name)
    }

    /// Whether a value is stored under `name`.
    pub fn contains(&self, name: &str) -> (r: bool)
        ensures
            r == self@.contains_key(name@),
    {
        self.values.contains_key(name)
    }

    /// Number of names under which a value is stored.
    pub fn len(&self) -> (r: usize)
        ensures
            r == self@.len(),
    {
        broadcast use vstd::hash_map::group_hash_map_axioms;

        let n: usize = self.values.len();
        proof {
            lemma_map_values_len(self.values@);
        }
        n
    }
}

/// Taking the view of every value leaves the names of a finite map, and so
/// their number, as they are.
proof fn lemma_map_values_len(m: Map<Seq<char>, Value>)
    ensures
        m.map_values(|v: Value| v@).dom() == m.dom(),
        m.map_values(|v: Value| v@).len() == m.len(),
{
    assert(m.map_values(|v: Value| v@).dom() =~= m.dom());
}

} // verus!
