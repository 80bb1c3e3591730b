//! The key-value map that each node serves reads from and applies writes to.
use vstd::prelude::*;
use vstd::hash_map::StringHashMap;

verus! {

/// String keys mapped to string values.
pub struct KvStore {
    data: StringHashMap<String>,
}

impl View for KvStore {
    type V = Map<Seq<char>, Seq<char>>;

    closed spec fn view(&self) -> Map<Seq<char>, Seq<char>> {
        self.data@.map_values(|v: String| v@)
    }
}

/// What a read of `key` gives back from a store whose contents are `m`.
pub open spec fn lookup(m: Map<Seq<char>, Seq<char>>, key: Seq<char>) -> Option<Seq<char>> {
    if m.contains_key(key) {
        Some(m[key])
    } else {
        None
    }
}

/// The view of an optional string.
pub open spec fn opt_view(o: Option<String>) -> Option<Seq<char>> {
    match o {
        Some(s) => Some(s@),
        None => None,
    }
}

impl KvStore {
    /// An empty store.
    pub fn new() -> (s: Self)
        ensures
            s@ == Map::<Seq<char>, Seq<char>>::empty(),
    {
        let s = KvStore { data: StringHashMap::new() };
        assert(s@ =~= Map::<Seq<char>, Seq<char>>::empty());
        s
    }

    /// The value stored under `key`, if any.
    pub fn get(&self, key: &str) -> (r: Option<String>)
        ensures
            opt_view(r) == lookup(self@, key@),
    {
        match self.data.get(key) {
            Some(v) => Some(v.clone()),
            None => None,
        }
    }

    /// Stores `value` under `key`, replacing any earlier value.
    pub fn set(&mut self, key: &str, value: &str)
        ensures
            final(self)@ == old(self)@.insert(key@, value@),
    {
        let k = key.to_owned();
        let v = value.to_owned();
        proof {
            let ghost f = |v: String| v@;
            assert(old(self).data@.insert(k@, v).map_values(f) =~= old(self).data@.map_values(f).insert(key@, value@));
        }
        self.data.insert(k, v);
    }

    /// Removes `key`; tells whether it was there.
    pub fn delete(&mut self, key: &str) -> (existed: bool)
        ensures
            existed == old(self)@.contains_key(key@),
            final(self)@ == old(self)@.remove(key@),
    {
        let existed = self.data.contains_key(key);
        proof {
            let ghost f = |v: String| v@;
            assert(old(self).data@.remove(key@).map_values(f) =~= old(self).data@.map_values(f).remove(key@));
        }
        self.data.remove(key);
        existed
    }
}

/// A read of a key gives back the value last written to it; writing one
/// key leaves every other key as it was.
pub proof fn lemma_read_after_write(m: Map<Seq<char>, Seq<char>>, key: Seq<char>, value: Seq<char>, other: Seq<char>)
    ensures
        lookup(m.insert(key, value), key) == Some(value),
        other != key ==> lookup(m.insert(key, value), other) == lookup(m, other),
{
}

/// After a key is deleted a read of it finds nothing, a second delete of
/// it reports that it was not there, and every other key is as it was.
pub proof fn lemma_read_after_delete(m: Map<Seq<char>, Seq<char>>, key: Seq<char>, other: Seq<char>)
    ensures
        lookup(m.remove(key), key) is None,
        !m.remove(key).contains_key(key),
        other != key ==> lookup(m.remove(key), other) == lookup(m, other),
{
}

} // verus!
