//! The names of user-defined attributes (UDAs) of the included projects:
//! both directions between a UDA key and its name, held in two `DashMap`s,
//! where the first registration of a key (or of a name) wins. The tables
//! come from `bincode` files, one per project.

use vstd::prelude::*;
use dashmap::DashMap;
use std::collections::HashMap;

verus! {

#[verifier::external_type_specification]
#[verifier::external_body]
#[verifier::reject_recursive_types(K)]
#[verifier::reject_recursive_types(V)]
#[verifier::reject_recursive_types(S)]
pub struct ExDashMap<K, V, S>(DashMap<K, V, S>);

/// What a key-to-name map holds: each key's name.
pub uninterp spec fn key_names(m: DashMap<u32, String>) -> Map<u32, Seq<char>>;

/// What a name-to-key map holds: each name's key.
pub uninterp spec fn name_keys(m: DashMap<String, u32>) -> Map<Seq<char>, u32>;

/// `DashMap::new`: an empty key-to-name map.
#[verifier::external_body]
fn new_key_map() -> (r: DashMap<u32, String>)
    ensures
        key_names(r).dom() == Set::<u32>::empty(),
{
    DashMap::new()
}

/// `DashMap::new`: an empty name-to-key map.
#[verifier::external_body]
fn new_name_map() -> (r: DashMap<String, u32>)
    ensures
        name_keys(r).dom() == Set::<Seq<char>>::empty(),
{
    DashMap::new()
}

/// `DashMap::insert`: the key now has the given name.
#[verifier::external_body]
fn key_map_insert(m: &mut DashMap<u32, String>, key: u32, name: String)
    ensures
        key_names(*final(m)) == key_names(*old(m)).insert(key, name@),
{
    m.insert(key, name);
}

/// `DashMap::insert`: the name now has the given key. Names are equal
/// exactly when their characters are.
#[verifier::external_body]
fn name_map_insert(m: &mut DashMap<String, u32>, name: String, key: u32)
    ensures
        name_keys(*final(m)) == name_keys(*old(m)).insert(name@, key),
{
    m.insert(name, key);
}

/// `DashMap::get`: a copy of the key's name, if it has one.
#[verifier::external_body]
fn key_map_get(m: &DashMap<u32, String>, key: u32) -> (r: Option<String>)
    ensures
        r matches Some(n) ==> key_names(*m).contains_key(key) && n@ == key_names(*m)[key],
        r is None ==> !key_names(*m).contains_key(key),
{
    m.get(&key).map(|e| e.value().clone())
}

/// `DashMap::get`: the name's key, if it has one.
#[verifier::external_body]
fn name_map_get(m: &DashMap<String, u32>, name: &str) -> (r: Option<u32>)
    ensures
        r matches Some(k) ==> name_keys(*m).contains_key(name@) && k == name_keys(*m)[name@],
        r is None ==> !name_keys(*m).contains_key(name@),
{
    m.get(name).map(|e| *e.value())
}

/// What `bincode` decodes from the bytes of one UDA file: the name of each
/// key, or `None` where the bytes are not such a map.
pub uninterp spec fn uda_file_names(data: Seq<u8>) -> Option<Map<u32, Seq<char>>>;

/// Whether `pairs` lists `m`: no key twice, and a pair for each key of `m`
/// with its name, and no other.
pub open spec fn lists_names(pairs: Seq<(u32, String)>, m: Map<u32, Seq<char>>) -> bool {
    &&& forall|i: int, j: int| 0 <= i < j < pairs.len() ==> (#[trigger] pairs[i]).0 != (#[trigger] pairs[j]).0
    &&& forall|i: int| 0 <= i < pairs.len() ==> m.contains_key((#[trigger] pairs[i]).0) && m[pairs[i].0] == pairs[i].1@
    &&& forall|k: u32| #[trigger] m.contains_key(k) ==> exists|i: int| 0 <= i < pairs.len() && (#[trigger] pairs[i]).0 == k
}

/// `bincode::deserialize` of a `HashMap<u32, String>`, whose pairs are then
/// listed in the map's order (which the hasher leaves open). `None` exactly
/// when `bincode` refuses the bytes.
#[verifier::external_body]
fn decode_uda_file(data: &[u8]) -> (r: Option<Vec<(u32, String)>>)
    ensures
        r is None <==> uda_file_names(data@) is None,
        r matches Some(v) ==> lists_names(v@, uda_file_names(data@).unwrap()),
{
    match bincode::deserialize::<HashMap<u32, String>>(data) {
        Ok(m) => Some(m.into_iter().collect()),
        Err(_) => None,
    }
}

/// The names that one file gives: nothing for a file that does not decode.
pub open spec fn file_names(data: Seq<u8>) -> Map<u32, Seq<char>> {
    match uda_file_names(data) {
        Some(m) => m,
        None => Map::empty(),
    }
}

/// The names of the files in order, the first file that names a key
/// giving its name.
pub open spec fn merged_names(files: Seq<Vec<u8>>) -> Map<u32, Seq<char>>
    decreases files.len(),
{
    if files.len() == 0 {
        Map::empty()
    } else {
        file_names(files.last()@).union_prefer_right(merged_names(files.drop_last()))
    }
}

/// Whether one file gives `key` the name `name`.
pub open spec fn gives(data: Seq<u8>, key: u32, name: Seq<char>) -> bool {
    file_names(data).contains_key(key) && file_names(data)[key] == name
}

/// Whether one file gives some key the name `name`.
pub open spec fn names_in(data: Seq<u8>, name: Seq<char>) -> bool {
    exists|k: u32| #[trigger] gives(data, k, name)
}

/// Whether file `t` is the first of `files` that gives some key `name`.
pub open spec fn first_naming(files: Seq<Vec<u8>>, name: Seq<char>, t: int) -> bool {
    &&& 0 <= t < files.len()
    &&& names_in(files[t]@, name)
    &&& forall|s: int| 0 <= s < t ==> !names_in(#[trigger] files[s]@, name)
}

/// The UDA names read so far: each key's name and each name's key.
pub struct UdaNames {
    by_key: DashMap<u32, String>,
    by_name: DashMap<String, u32>,
}

impl UdaNames {
    /// The name of each registered key.
    pub closed spec fn names(&self) -> Map<u32, Seq<char>> {
        key_names(self.by_key)
    }

    /// The key of each registered name.
    pub closed spec fn keys(&self) -> Map<Seq<char>, u32> {
        name_keys(self.by_name)
    }

    /// No names yet.
    pub fn new() -> (r: Self)
        ensures
            r.names() == Map::<u32, Seq<char>>::empty(),
            r.keys() == Map::<Seq<char>, u32>::empty(),
    {
        let r = UdaNames { by_key: new_key_map(), by_name: new_name_map() };
        assert(r.names() =~= Map::<u32, Seq<char>>::empty());
        assert(r.keys() =~= Map::<Seq<char>, u32>::empty());
        r
    }

    /// Registers `name` as the name of `key`. A key that already has a name
    /// keeps it, and a name that already has a key keeps it.
    pub fn add(&mut self, key: u32, name: String)
        ensures
            final(self).names() == if old(self).names().contains_key(key) {
                old(self).names()
            } else {
                old(self).names().insert(key, name@)
            },
            final(self).keys() == if old(self).keys().contains_key(name@) {
                old(self).keys()
            } else {
                old(self).keys().insert(name@, key)
            },
    {
        if name_map_get(&self.by_name, name.as_str()).is_none() {
            name_map_insert(&mut self.by_name, name.clone(), key);
        }
        if key_map_get(&self.by_key, key).is_none() {
            key_map_insert(&mut self.by_key, key, name);
        }
    }

    /// The UDA tables of the given files (one per project, in order): each
    /// key gets the name that the first file naming it gives, and each name
    /// a key that the first file containing that name gives it (which one,
    /// when that file gives it to several keys, its map order decides). A
    /// file that does not decode contributes nothing.
    pub fn from_files(files: &Vec<Vec<u8>>) -> (r: Self)
        ensures
            r.names() == merged_names(files@),
            forall|n: Seq<char>| #[trigger] r.keys().contains_key(n) <==> exists|t: int|
                0 <= t < files@.len() && #[trigger] names_in(files@[t]@, n),
            forall|n: Seq<char>| #[trigger] r.keys().contains_key(n) ==> exists|t: int|
                #[trigger] first_naming(files@, n, t) && gives(files@[t]@, r.keys()[n], n),
    {
        let mut r = UdaNames::new();
        let mut i: usize = 0;
        proof {
            assert(files@.take(0) =~= Seq::<Vec<u8>>::empty());
        }
        while i < files.len()
            invariant
                i <= files@.len(),
                r.names() == merged_names(files@.take(i as int)),
                forall|n: Seq<char>| #[trigger] r.keys().contains_key(n) <==> exists|t: int|
                    0 <= t < i && #[trigger] names_in(files@[t]@, n),
                forall|n: Seq<char>| #[trigger] r.keys().contains_key(n) ==> exists|t: int|
                    #[trigger] first_naming(files@, n, t) && t < i && gives(files@[t]@, r.keys()[n], n),
            decreases files@.len() - i,
        {
            let ghost data = files@[i as int]@;
            let ghost d = file_names(data);
            let ghost bn = r.names();
            let ghost bk = r.keys();
            match decode_uda_file(files[i].as_slice()) {
                Some(pairs) => {
                    let ghost v = pairs@;
                    let mut j: usize = 0;
                    while j < pairs.len()
                        invariant
                            v == pairs@,
                            lists_names(v, d),
                            j <= v.len(),
                            forall|k: u32| #[trigger] r.names().contains_key(k) <==> bn.contains_key(k)
                                || exists|t: int| 0 <= t < j && (#[trigger] v[t]).0 == k,
                            forall|k: u32| #[trigger] bn.contains_key(k) ==> r.names()[k] == bn[k],
                            forall|t: int| 0 <= t < j && !bn.contains_key((#[trigger] v[t]).0)
                                ==> r.names()[v[t].0] == v[t].1@,
                            forall|n: Seq<char>| #[trigger] r.keys().contains_key(n) <==> bk.contains_key(n)
                                || exists|t: int| 0 <= t < j && (#[trigger] v[t]).1@ == n,
                            forall|n: Seq<char>| #[trigger] bk.contains_key(n) ==> r.keys()[n] == bk[n],
                            forall|n: Seq<char>| #[trigger] r.keys().contains_key(n) && !bk.contains_key(n)
                                ==> exists|t: int| 0 <= t < j && (#[trigger] v[t]).1@ == n && v[t].0 == r.keys()[n],
                        decreases v.len() - j,
                    {
                        let key = pairs[j].0;
                        let name = pairs[j].1.clone();
                        r.add(key, name);
                        j = j + 1;
                    }
                    proof {
                        assert forall|k: u32| d.contains_key(k) <==> exists|t: int| 0 <= t < v.len() && (#[trigger] v[t]).0 == k by {}
                        assert(r.names() =~= d.union_prefer_right(bn)) by {
                            assert forall|k: u32| #[trigger] r.names().contains_key(k) && !bn.contains_key(k) implies r.names()[k] == d[k] by {
                                let t = choose|t: int| 0 <= t < v.len() && (#[trigger] v[t]).0 == k;
                            }
                        }
                        assert forall|n: Seq<char>| names_in(data, n) <==> exists|t: int| 0 <= t < v.len() && (#[trigger] v[t]).1@ == n by {
                            if names_in(data, n) {
                                let k = choose|k: u32| #[trigger] gives(data, k, n);
                                let t = choose|t: int| 0 <= t < v.len() && (#[trigger] v[t]).0 == k;
                                assert(v[t].1@ == n);
                            }
                            if exists|t: int| 0 <= t < v.len() && (#[trigger] v[t]).1@ == n {
                                let t = choose|t: int| 0 <= t < v.len() && (#[trigger] v[t]).1@ == n;
                                assert(gives(data, v[t].0, n));
                            }
                        }
                        assert forall|n: Seq<char>| #[trigger] r.keys().contains_key(n) && !bk.contains_key(n) implies
                            first_naming(files@, n, i as int) && gives(files@[i as int]@, r.keys()[n], n) by {
                            let t = choose|t: int| 0 <= t < v.len() && (#[trigger] v[t]).1@ == n && v[t].0 == r.keys()[n];
                            assert(gives(data, v[t].0, n));
                            assert forall|s: int| 0 <= s < i implies !names_in(#[trigger] files@[s]@, n) by {}
                        }
                    }
                },
                None => {
                    proof {
                        assert(d =~= Map::<u32, Seq<char>>::empty());
                        assert(r.names() =~= d.union_prefer_right(bn));
                        assert forall|n: Seq<char>| !names_in(data, n) by {}
                    }
                },
            }
            proof {
                assert(files@.take(i + 1).drop_last() =~= files@.take(i as int));
                assert(r.names() == merged_names(files@.take(i + 1)));
                assert forall|n: Seq<char>| #[trigger] r.keys().contains_key(n) <==> exists|t: int|
                    0 <= t < i + 1 && #[trigger] names_in(files@[t]@, n) by {
                    if exists|t: int| 0 <= t < i + 1 && #[trigger] names_in(files@[t]@, n) {
                        let t = choose|t: int| 0 <= t < i + 1 && #[trigger] names_in(files@[t]@, n);
                        if t < i {
                            assert(exists|t2: int| 0 <= t2 < i && #[trigger] names_in(files@[t2]@, n));
                        }
                    }
                }
                assert forall|n: Seq<char>| #[trigger] r.keys().contains_key(n) implies exists|t: int|
                    #[trigger] first_naming(files@, n, t) && t < i + 1 && gives(files@[t]@, r.keys()[n], n) by {
                    if bk.contains_key(n) {
                        let t = choose|t: int| #[trigger] first_naming(files@, n, t) && t < i && gives(files@[t]@, bk[n], n);
                    } else {
                        assert(first_naming(files@, n, i as int));
                    }
                }
            }
            i = i + 1;
        }
        proof {
            assert(files@.take(files@.len() as int) =~= files@);
        }
        r
    }

    /// The name of `key`, if it has one.
    pub fn name_of(&self, key: u32) -> (r: Option<String>)
        ensures
            r matches Some(n) ==> self.names().contains_key(key) && n@ == self.names()[key],
            r is None ==> !self.names().contains_key(key),
    {
        key_map_get(&self.by_key, key)
    }

    /// The key of `name`, if it has one.
    pub fn key_of(&self, name: &str) -> (r: Option<u32>)
        ensures
            r matches Some(k) ==> self.keys().contains_key(name@) && k == self.keys()[name@],
            r is None ==> !self.keys().contains_key(name@),
    {
        name_map_get(&self.by_name, name)
    }
}

} // verus!
