//! The variable store of one run.
use vstd::hash_map::StringHashMap;
use vstd::prelude::*;

verus! {

/// The integer type of the language: 64-bit signed, with wrapping arithmetic.
pub type Int = i64;

/// The variable store of one run: a map from variable name to value.
pub struct State {
    variables: StringHashMap<Int>,
}

impl View for State {
    type V = Map<Seq<char>, Int>;

    closed spec fn view(&self) -> Map<Seq<char>, Int> {
        self.variables@
    }
}

impl State {
    /// An empty store.
    pub fn new() -> (r: State)
        ensures
            r@ == Map::<Seq<char>, Int>::empty(),
    {
        State { variables: StringHashMap::new() }
    }

    /// The value bound to `name`, or `None` where `name` is unbound.
    pub fn get(&self, name: &String) -> (r: Option<Int>)
        ensures
            r == (if self@.contains_key(name@) { Some(self@[name@]) } else { None::<Int> }),
    {
        match self.variables.get(name.as_str()) {
            Some(v) => Some(*v),
            None => None,
        }
    }

    /// Binds `name` to `value`, replacing any earlier binding.
    pub fn set(&mut self, name: &String, value: Int)
        ensures
            final(self)@ == old(self)@.insert(name@, value),
    {
        self.variables.insert(name.clone(), value);
    }
}

} // verus!
