//! Insertion-ordered vertex registry backed by `indexmap::IndexMap`.

use indexmap::IndexMap;
use vstd::prelude::*;

use crate::vertex::{key_of, VertexObject};

verus! {

/// A vertex as a key: the canonical bit patterns of its three position
/// coordinates followed by its four color components.
pub type VertexKey = (u32, u32, u32, u32, u32, u32, u32);

#[verifier::external_type_specification]
#[verifier::external_body]
#[verifier::reject_recursive_types(K)]
#[verifier::reject_recursive_types(V)]
#[verifier::reject_recursive_types(S)]
pub struct ExIndexMap<K, V, S>(IndexMap<K, V, S>);

/// What an `IndexMap` holds: its key/value pairs in insertion order.
pub uninterp spec fn index_map_entries(m: IndexMap<VertexKey, usize>) -> Seq<(VertexKey, usize)>;

/// `IndexMap::new`: the new map holds no entries.
#[verifier::external_body]
fn index_map_new() -> (m: IndexMap<VertexKey, usize>)
    ensures
        index_map_entries(m) == Seq::<(VertexKey, usize)>::empty(),
{
    IndexMap::new()
}

/// `IndexMap::len`: the number of entries.
#[verifier::external_body]
fn index_map_len(m: &IndexMap<VertexKey, usize>) -> (n: usize)
    ensures
        n == index_map_entries(*m).len(),
{
    m.len()
}

/// `IndexMap::get`: the value stored with an equal key, if there is one.
#[verifier::external_body]
fn index_map_get(m: &IndexMap<VertexKey, usize>, key: &VertexKey) -> (r: Option<usize>)
    ensures
        r is None <==> (forall|i: int|
            0 <= i < index_map_entries(*m).len() ==> #[trigger] index_map_entries(*m)[i].0 != *key),
        r matches Some(v) ==> exists|i: int|
            0 <= i < index_map_entries(*m).len() && #[trigger] index_map_entries(*m)[i] == (*key, v),
{
    m.get(key).copied()
}

/// `IndexMap::insert`: a new key goes last; an existing key keeps its place
/// and has its value replaced, and the old value is returned.
#[verifier::external_body]
fn index_map_insert(m: &mut IndexMap<VertexKey, usize>, key: VertexKey, value: usize) -> (r: Option<usize>)
    ensures
        (forall|i: int| 0 <= i < index_map_entries(*old(m)).len()
            ==> #[trigger] index_map_entries(*old(m))[i].0 != key) ==> {
            &&& r is None
            &&& index_map_entries(*final(m)) == index_map_entries(*old(m)).push((key, value))
        },
        forall|i: int| 0 <= i < index_map_entries(*old(m)).len()
            && #[trigger] index_map_entries(*old(m))[i].0 == key ==> {
            &&& r == Some(index_map_entries(*old(m))[i].1)
            &&& index_map_entries(*final(m)) == index_map_entries(*old(m)).update(i, (key, value))
        },
{
    m.insert(key, value)
}

/// `IndexMap::get_index`: the entry at a position, if the position is in range.
#[verifier::external_body]
fn index_map_get_index(m: &IndexMap<VertexKey, usize>, index: usize) -> (r: Option<(VertexKey, usize)>)
    ensures
        index < index_map_entries(*m).len() ==> r == Some(index_map_entries(*m)[index as int]),
        index >= index_map_entries(*m).len() ==> r is None,
{
    m.get_index(index).map(|(k, v)| (*k, *v))
}


/// The registry after `key` is looked up and, when absent, appended.
pub open spec fn registered(keys: Seq<VertexKey>, key: VertexKey) -> Seq<VertexKey> {
    if keys.contains(key) {
        keys
    } else {
        keys.push(key)
    }
}

/// The registry after every key of `stream` is registered in turn.
pub open spec fn registered_all(keys: Seq<VertexKey>, stream: Seq<VertexKey>) -> Seq<VertexKey>
    decreases stream.len(),
{
    if stream.len() == 0 {
        keys
    } else {
        registered(registered_all(keys, stream.drop_last()), stream.last())
    }
}

/// Registering a key adds at most that key, keeps what was there, and leaves
/// the key present.
pub proof fn lemma_registered(keys: Seq<VertexKey>, key: VertexKey)
    requires
        keys.no_duplicates(),
    ensures
        registered(keys, key).no_duplicates(),
        registered(keys, key).contains(key),
        keys.is_prefix_of(registered(keys, key)),
        registered(keys, key)[registered(keys, key).index_of(key)] == key,
        0 <= registered(keys, key).index_of(key) < registered(keys, key).len(),
        keys.contains(key) ==> registered(keys, key).index_of(key) == keys.index_of(key),
{
    if !keys.contains(key) {
        let r = keys.push(key);
        assert(r[keys.len() as int] == key);
    }
}

/// Registering a stream keeps what was there, adds no duplicate, and leaves
/// every key of the stream present.
pub proof fn lemma_registered_all(keys: Seq<VertexKey>, stream: Seq<VertexKey>)
    requires
        keys.no_duplicates(),
    ensures
        registered_all(keys, stream).no_duplicates(),
        keys.is_prefix_of(registered_all(keys, stream)),
        forall|t: int| 0 <= t < stream.len() ==> registered_all(keys, stream).contains(#[trigger] stream[t]),
    decreases stream.len(),
{
    if stream.len() > 0 {
        let prev = registered_all(keys, stream.drop_last());
        lemma_registered_all(keys, stream.drop_last());
        lemma_registered(prev, stream.last());
        let fin = registered_all(keys, stream);
        assert(prev.is_prefix_of(fin));
        assert forall|t: int| 0 <= t < stream.len() implies fin.contains(#[trigger] stream[t]) by {
            if t < stream.len() - 1 {
                assert(stream[t] == stream.drop_last()[t]);
                assert(prev.contains(stream[t]));
                let w = choose|w: int| 0 <= w < prev.len() && prev[w] == stream[t];
                assert(fin[w] == stream[t]);
            }
        }
    }
}

/// Registering two streams one after the other is registering their
/// concatenation.
pub proof fn lemma_registered_all_append(keys: Seq<VertexKey>, s: Seq<VertexKey>, t: Seq<VertexKey>)
    ensures
        registered_all(keys, s + t) == registered_all(registered_all(keys, s), t),
    decreases t.len(),
{
    if t.len() == 0 {
        assert(s + t =~= s);
    } else {
        assert((s + t).drop_last() =~= s + t.drop_last());
        assert((s + t).last() == t.last());
        lemma_registered_all_append(keys, s, t.drop_last());
    }
}

/// Registering a key a second time changes nothing.
pub proof fn lemma_registered_idempotent(keys: Seq<VertexKey>, key: VertexKey)
    ensures
        registered(registered(keys, key), key) == registered(keys, key),
{
    if !keys.contains(key) {
        assert(keys.push(key)[keys.len() as int] == key);
    }
}

/// Every key of a registered stream's registry was already in the registry
/// or comes from the stream.
pub proof fn lemma_registered_all_from(keys: Seq<VertexKey>, stream: Seq<VertexKey>, x: VertexKey)
    requires
        registered_all(keys, stream).contains(x),
    ensures
        keys.contains(x) || stream.contains(x),
    decreases stream.len(),
{
    if stream.len() > 0 {
        let prev = registered_all(keys, stream.drop_last());
        if prev.contains(x) {
            lemma_registered_all_from(keys, stream.drop_last(), x);
            if stream.drop_last().contains(x) {
                let w = choose|w: int| 0 <= w < stream.drop_last().len() && stream.drop_last()[w] == x;
                assert(stream[w] == x);
            }
        } else {
            let fin = registered(prev, stream.last());
            let w = choose|w: int| 0 <= w < fin.len() && fin[w] == x;
            assert(w == prev.len());
            assert(stream[stream.len() - 1] == x);
        }
    }
}

/// In a registry without duplicates that extends another, a key of the
/// smaller one keeps its index.
pub proof fn lemma_index_stable(small: Seq<VertexKey>, big: Seq<VertexKey>, key: VertexKey)
    requires
        small.is_prefix_of(big),
        big.no_duplicates(),
        small.contains(key),
    ensures
        big.index_of(key) == small.index_of(key),
        0 <= small.index_of(key) < small.len(),
        small[small.index_of(key)] == key,
{
    let i = small.index_of(key);
    assert(big[i] == key);
    let j = big.index_of(key);
    assert(big[j] == key);
}

/// The keys of a sequence of vertices.
pub open spec fn keys_of(objects: Seq<VertexObject>) -> Seq<VertexKey> {
    objects.map_values(|o: VertexObject| key_of(o))
}

/// The registered vertices after `v` is looked up by key and, when no
/// registered vertex has its key, appended; a vertex already registered
/// under that key stays as it was first registered.
pub open spec fn registered_object(objects: Seq<VertexObject>, v: VertexObject) -> Seq<VertexObject> {
    if keys_of(objects).contains(key_of(v)) {
        objects
    } else {
        objects.push(v)
    }
}

/// The registered vertices after every vertex of `stream` is registered in turn.
pub open spec fn registered_objects_all(objects: Seq<VertexObject>, stream: Seq<VertexObject>) -> Seq<VertexObject>
    decreases stream.len(),
{
    if stream.len() == 0 {
        objects
    } else {
        registered_object(registered_objects_all(objects, stream.drop_last()), stream.last())
    }
}

/// Registering two streams of vertices one after the other is registering
/// their concatenation.
pub proof fn lemma_registered_objects_all_append(objects: Seq<VertexObject>, s: Seq<VertexObject>, t: Seq<VertexObject>)
    ensures
        registered_objects_all(objects, s + t) == registered_objects_all(registered_objects_all(objects, s), t),
    decreases t.len(),
{
    if t.len() == 0 {
        assert(s + t =~= s);
    } else {
        assert((s + t).drop_last() =~= s + t.drop_last());
        assert((s + t).last() == t.last());
        lemma_registered_objects_all_append(objects, s, t.drop_last());
    }
}

/// Registering by key keeps the keys registered as `registered` says.
pub proof fn lemma_registered_object_keys(objects: Seq<VertexObject>, v: VertexObject)
    ensures
        keys_of(registered_object(objects, v)) == registered(keys_of(objects), key_of(v)),
{
    if !keys_of(objects).contains(key_of(v)) {
        assert(keys_of(objects.push(v)) =~= keys_of(objects).push(key_of(v)));
    }
}

/// The keys of the vertices registered from a stream are the keys
/// registered from the stream's keys.
pub proof fn lemma_registered_objects_all_keys(objects: Seq<VertexObject>, stream: Seq<VertexObject>)
    ensures
        keys_of(registered_objects_all(objects, stream)) == registered_all(keys_of(objects), keys_of(stream)),
    decreases stream.len(),
{
    if stream.len() > 0 {
        lemma_registered_objects_all_keys(objects, stream.drop_last());
        lemma_registered_object_keys(registered_objects_all(objects, stream.drop_last()), stream.last());
        assert(keys_of(stream).drop_last() =~= keys_of(stream.drop_last()));
        assert(keys_of(stream).last() == key_of(stream.last()));
    } else {
        assert(keys_of(stream) =~= Seq::<VertexKey>::empty());
    }
}

/// An insertion-ordered set of vertices; each vertex's index is its position.
pub struct VertexRegistry {
    map: IndexMap<VertexKey, usize>,
    vertices: Vec<VertexObject>,
}

impl VertexRegistry {
    /// The vertices in the order in which they were first added.
    pub closed spec fn view(&self) -> Seq<VertexKey> {
        index_map_entries(self.map).map_values(|e: (VertexKey, usize)| e.0)
    }

    /// The registered vertices as they were first registered, in order.
    pub closed spec fn objects(&self) -> Seq<VertexObject> {
        self.vertices@
    }

    /// Every entry's value is its own position, no key occurs twice, and the
    /// stored vertices have the registered keys.
    pub closed spec fn wf(&self) -> bool {
        &&& forall|i: int| 0 <= i < index_map_entries(self.map).len()
            ==> #[trigger] index_map_entries(self.map)[i].1 == i
        &&& self.view().no_duplicates()
        &&& self.view() == keys_of(self.vertices@)
    }

    /// The keys of a well-formed registry are the keys of its vertices.
    pub proof fn lemma_view_is_keys(&self)
        requires
            self.wf(),
        ensures
            self.view() == keys_of(self.objects()),
            self.view().len() == self.objects().len(),
    {
    }

    /// A well-formed registry holds no vertex twice.
    pub proof fn lemma_no_duplicates(&self)
        requires
            self.wf(),
        ensures
            self.view().no_duplicates(),
    {
    }

    /// An empty registry.
    pub fn new() -> (r: Self)
        ensures
            r.wf(),
            r.view() == Seq::<VertexKey>::empty(),
            r.objects() == Seq::<VertexObject>::empty(),
    {
        let r = VertexRegistry { map: index_map_new(), vertices: Vec::new() };
        assert(r.view() =~= Seq::<VertexKey>::empty());
        assert(keys_of(r.vertices@) =~= Seq::<VertexKey>::empty());
        r
    }

    /// The number of registered vertices.
    pub fn len(&self) -> (n: usize)
        ensures
            n == self.view().len(),
    {
        index_map_len(&self.map)
    }

    /// The index of `key`, if it is registered.
    pub fn get(&self, key: &VertexKey) -> (r: Option<usize>)
        requires
            self.wf(),
        ensures
            r is Some <==> self.view().contains(*key),
            r matches Some(i) ==> i == self.view().index_of(*key) && self.view()[i as int] == *key,
    {
        let r = index_map_get(&self.map, key);
        proof {
            let e = index_map_entries(self.map);
            if self.view().contains(*key) {
                let j = choose|j: int| 0 <= j < self.view().len() && self.view()[j] == *key;
                assert(e[j].0 == *key);
            }
            if r is None {
                assert forall|j: int| 0 <= j < self.view().len() implies self.view()[j] != *key by {
                    assert(e[j].0 != *key);
                }
            }
            match r {
                Some(v) => {
                    let j = choose|j: int| 0 <= j < e.len() && #[trigger] e[j] == (*key, v);
                    assert(self.view()[j] == *key);
                    assert(e[j].1 == j);
                    assert(self.view()[self.view().index_of(*key)] == *key);
                }
                None => {}
            }
        }
        r
    }

    /// The index of the vertex's key, registering the vertex last when no
    /// registered vertex has that key.
    pub fn get_or_insert_index(&mut self, vertex: &VertexObject) -> (r: usize)
        requires
            old(self).wf(),
        ensures
            final(self).wf(),
            final(self).view() == registered(old(self).view(), key_of(*vertex)),
            final(self).objects() == registered_object(old(self).objects(), *vertex),
            r == final(self).view().index_of(key_of(*vertex)),
            final(self).view()[r as int] == key_of(*vertex),
            r < final(self).view().len(),
    {
        let key = vertex.key();
        proof {
            lemma_registered(self.view(), key);
        }
        match self.get(&key) {
            Some(index) => index,
            None => {
                let index = index_map_len(&self.map);
                let ghost old_e = index_map_entries(self.map);
                let _ = index_map_insert(&mut self.map, key, index);
                self.vertices.push(*vertex);
                proof {
                    let e = index_map_entries(self.map);
                    assert forall|i: int| 0 <= i < old_e.len() implies #[trigger] old_e[i].0 != key by {
                        assert(old(self).view()[i] == old_e[i].0);
                    }
                    assert(e == old_e.push((key, index)));
                    assert(self.view() =~= old(self).view().push(key));
                    assert(self.view()[index as int] == key);
                    assert(keys_of(self.vertices@) =~= keys_of(old(self).vertices@).push(key));
                }
                index
            }
        }
    }

    /// The vertex at `index`, as it was first registered, if the index is in range.
    pub fn get_index(&self, index: usize) -> (r: Option<VertexObject>)
        requires
            self.wf(),
        ensures
            index < self.objects().len() ==> r == Some(self.objects()[index as int]),
            index >= self.objects().len() ==> r is None,
    {
        if index < self.vertices.len() {
            Some(self.vertices[index])
        } else {
            None
        }
    }

    /// The registered vertices as they were first registered, in order.
    pub fn vertices(&self) -> (r: Vec<VertexObject>)
        ensures
            r@ == self.objects(),
    {
        let mut out: Vec<VertexObject> = Vec::new();
        let mut i: usize = 0;
        while i < self.vertices.len()
            invariant
                i <= self.vertices@.len(),
                out@ == self.vertices@.take(i as int),
            decreases self.vertices@.len() - i,
        {
            out.push(self.vertices[i]);
            assert(self.vertices@.take(i + 1) =~= self.vertices@.take(i as int).push(self.vertices@[i as int]));
            i = i + 1;
        }
        assert(self.vertices@.take(i as int) =~= self.vertices@);
        out
    }

    /// All registered vertices, in registration order.
    pub fn keys(&self) -> (r: Vec<VertexKey>)
        ensures
            r@ == self.view(),
    {
        let n = index_map_len(&self.map);
        let mut out: Vec<VertexKey> = Vec::new();
        let mut i: usize = 0;
        while i < n
            invariant
                n == self.view().len(),
                i <= n,
                out@ == self.view().take(i as int),
            decreases n - i,
        {
            let k = match index_map_get_index(&self.map, i) {
                Some((k, _)) => k,
                None => { (0, 0, 0, 0, 0, 0, 0) },
            };
            out.push(k);
            assert(self.view().take(i + 1) =~= self.view().take(i as int).push(self.view()[i as int]));
            i = i + 1;
        }
        assert(self.view().take(n as int) =~= self.view());
        out
    }
}

} // verus!
