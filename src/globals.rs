use crate::value::Value;
use fxhash::FxHashMap;
use vstd::prelude::*;

verus! {

#[verifier::external_type_specification]
#[verifier::external_body]
pub struct ExFxHasher(fxhash::FxHasher);

#[verifier::external_type_specification]
#[verifier::external_body]
#[verifier::reject_recursive_types(H)]
pub struct ExBuildHasherDefault<H>(std::hash::BuildHasherDefault<H>);

/// The map that holds the globals.
pub type GlobalMap = FxHashMap<String, Value>;

/// What a map of globals holds, by name.
pub uninterp spec fn held(m: GlobalMap) -> Map<Seq<char>, Value>;

/// No globals at all.
pub open spec fn no_globals() -> Map<Seq<char>, Value> {
    Map::empty()
}

/// Relies on `HashMap::default` (with fxhash's hasher): an empty map.
#[verifier::external_body]
fn empty_map() -> (r: GlobalMap)
    ensures
        held(r) == no_globals(),
{
    GlobalMap::default()
}

/// Relies on `HashMap::insert`: binds `k` to `v`, replacing an earlier
/// binding of an equal key.
#[verifier::external_body]
fn map_insert(m: &mut GlobalMap, k: String, v: Value)
    ensures
        held(*final(m)) == held(*old(m)).insert(k@, v),
{
    m.insert(k, v);
}

/// Relies on `HashMap::get`: the value bound to a key equal to `k`, if any.
#[verifier::external_body]
fn map_get(m: &GlobalMap, k: &String) -> (r: Option<Value>)
    ensures
        r == (if held(*m).contains_key(k@) {
            Some(held(*m)[k@])
        } else {
            None
        }),
{
    m.get(k).copied()
}

/// The engine's table of global variables, keyed by name.
pub struct GlobalTable {
    map: GlobalMap,
}

impl GlobalTable {
    /// The table as a map from names to values.
    pub closed spec fn view(&self) -> Map<Seq<char>, Value> {
        held(self.map)
    }

    pub fn new() -> (r: Self)
        ensures
            r.view() == no_globals(),
    {
        GlobalTable { map: empty_map() }
    }

    /// The value of `name`, if the table holds it.
    pub fn get(&self, name: &String) -> (r: Option<Value>)
        ensures
            r == (if self.view().contains_key(name@) {
                Some(self.view()[name@])
            } else {
                None
            }),
    {
        map_get(&self.map, name)
    }

    /// Binds `name` to `v`, replacing an earlier binding of the same name.
    pub fn insert(&mut self, name: String, v: Value)
        ensures
            final(self).view() == old(self).view().insert(name@, v),
    {
        map_insert(&mut self.map, name, v);
    }
}

} // verus!
