//! Vertex, edge and face lists that share vertices through a registry.

use vstd::prelude::*;

use crate::registry::{
    lemma_index_stable, lemma_registered, registered, registered_object, VertexKey, VertexRegistry,
};
use crate::vertex::{key_of, VertexObject};

verus! {

/// A collection whose vertices are kept, without repetition, in a registry.
pub trait VertexCollection {
    /// The registered vertices, in registration order.
    spec fn registry_view(&self) -> Seq<VertexKey>;

    /// The registered vertices as they were first registered.
    spec fn registry_objects(&self) -> Seq<VertexObject>;

    /// The collection's internal invariant.
    spec fn collection_wf(&self) -> bool;

    /// The registry of the collection.
    fn vertex_registry(&self) -> (r: &VertexRegistry)
        ensures
            r.view() == self.registry_view(),
            r.objects() == self.registry_objects(),
            self.collection_wf() ==> r.wf(),
    ;

    /// The index of a vertex, registering it last when it is new.
    fn get_or_insert_index(&mut self, vertex: &VertexObject) -> (r: usize)
        requires
            old(self).collection_wf(),
        ensures
            final(self).collection_wf(),
            final(self).registry_view() == registered(old(self).registry_view(), key_of(*vertex)),
            final(self).registry_objects() == registered_object(old(self).registry_objects(), *vertex),
            r == final(self).registry_view().index_of(key_of(*vertex)),
            r < final(self).registry_view().len(),
            final(self).registry_view()[r as int] == key_of(*vertex),
    ;

    /// Adds a vertex; the same as `get_or_insert_index`.
    fn add_vertex(&mut self, v1: &VertexObject) -> (r: usize)
        requires
            old(self).collection_wf(),
        ensures
            final(self).collection_wf(),
            final(self).registry_view() == registered(old(self).registry_view(), key_of(*v1)),
            final(self).registry_objects() == registered_object(old(self).registry_objects(), *v1),
            r == final(self).registry_view().index_of(key_of(*v1)),
            r < final(self).registry_view().len(),
            final(self).registry_view()[r as int] == key_of(*v1),
    {
        self.get_or_insert_index(v1)
    }
}

/// Vertices drawn as points.
pub struct VertexList {
    registry: VertexRegistry,
}

impl VertexList {
    /// An empty list.
    pub fn new() -> (r: Self)
        ensures
            r.collection_wf(),
            r.registry_view() == Seq::<VertexKey>::empty(),
            r.registry_objects() == Seq::<VertexObject>::empty(),
    {
        VertexList { registry: VertexRegistry::new() }
    }

    /// The registered vertices as they were first registered, in order.
    pub fn iter(&self) -> (r: Vec<VertexObject>)
        ensures
            r@ == self.registry_objects(),
    {
        self.registry.vertices()
    }
}

impl VertexCollection for VertexList {
    closed spec fn registry_view(&self) -> Seq<VertexKey> {
        self.registry.view()
    }

    closed spec fn registry_objects(&self) -> Seq<VertexObject> {
        self.registry.objects()
    }

    closed spec fn collection_wf(&self) -> bool {
        self.registry.wf()
    }

    fn vertex_registry(&self) -> (r: &VertexRegistry) {
        &self.registry
    }

    fn get_or_insert_index(&mut self, vertex: &VertexObject) -> (r: usize) {
        self.registry.get_or_insert_index(vertex)
    }
}

/// Edges between registered vertices, each a pair of registry indices.
pub struct EdgeList {
    vertex_registry: VertexRegistry,
    edges: Vec<(usize, usize)>,
}

impl EdgeList {
    /// The edges as pairs of registry indices.
    pub closed spec fn edges_view(&self) -> Seq<(usize, usize)> {
        self.edges@
    }

    /// An empty list.
    pub fn new() -> (r: Self)
        ensures
            r.collection_wf(),
            r.registry_view() == Seq::<VertexKey>::empty(),
            r.registry_objects() == Seq::<VertexObject>::empty(),
            r.edges_view() == Seq::<(usize, usize)>::empty(),
    {
        EdgeList { vertex_registry: VertexRegistry::new(), edges: Vec::new() }
    }

    /// Registers both ends and appends the edge between them; returns the
    /// edge's index.
    pub fn add_edge(&mut self, v1: VertexObject, v2: VertexObject) -> (r: usize)
        requires
            old(self).collection_wf(),
        ensures
            final(self).collection_wf(),
            final(self).registry_view() == registered(registered(old(self).registry_view(), key_of(v1)), key_of(v2)),
            final(self).registry_objects() == registered_object(registered_object(old(self).registry_objects(), v1), v2),
            final(self).edges_view().len() == old(self).edges_view().len() + 1,
            final(self).edges_view().drop_last() == old(self).edges_view(),
            final(self).edges_view().last().0 == final(self).registry_view().index_of(key_of(v1)),
            final(self).edges_view().last().1 == final(self).registry_view().index_of(key_of(v2)),
            r == old(self).edges_view().len(),
    {
        let i1 = self.get_or_insert_index(&v1);
        let ghost r1 = self.registry_view();
        proof { self.vertex_registry.lemma_no_duplicates(); }
        let i2 = self.get_or_insert_index(&v2);
        proof {
            lemma_registered(r1, key_of(v2));
            lemma_index_stable(r1, self.registry_view(), key_of(v1));
        }
        self.edges.push((i1, i2));
        proof {
            assert(self.edges@.drop_last() =~= old(self).edges@);
            assert forall|e: int| 0 <= e < self.edges@.len() implies
                #[trigger] self.edges@[e].0 < self.registry_view().len()
                && self.edges@[e].1 < self.registry_view().len() by {
                if e < old(self).edges@.len() {
                    assert(self.edges@[e] == old(self).edges@[e]);
                }
            }
        }
        self.edges.len() - 1
    }

    /// The edges as pairs of registry indices.
    pub fn edges(&self) -> (r: Vec<(usize, usize)>)
        ensures
            r@ == self.edges_view(),
    {
        let mut out: Vec<(usize, usize)> = Vec::new();
        let mut i: usize = 0;
        while i < self.edges.len()
            invariant
                i <= self.edges@.len(),
                out@ == self.edges@.take(i as int),
            decreases self.edges@.len() - i,
        {
            out.push(self.edges[i]);
            assert(self.edges@.take(i + 1) =~= self.edges@.take(i as int).push(self.edges@[i as int]));
            i = i + 1;
        }
        assert(self.edges@.take(i as int) =~= self.edges@);
        out
    }
}

impl VertexCollection for EdgeList {
    closed spec fn registry_view(&self) -> Seq<VertexKey> {
        self.vertex_registry.view()
    }

    closed spec fn registry_objects(&self) -> Seq<VertexObject> {
        self.vertex_registry.objects()
    }

    closed spec fn collection_wf(&self) -> bool {
        &&& self.vertex_registry.wf()
        &&& forall|e: int| 0 <= e < self.edges@.len() ==>
            #[trigger] self.edges@[e].0 < self.vertex_registry.view().len()
            && self.edges@[e].1 < self.vertex_registry.view().len()
    }

    fn vertex_registry(&self) -> (r: &VertexRegistry) {
        &self.vertex_registry
    }

    fn get_or_insert_index(&mut self, vertex: &VertexObject) -> (r: usize)
        ensures
            final(self).edges_view() == old(self).edges_view(),
    {
        let ghost before = self.vertex_registry.view();
        proof { self.vertex_registry.lemma_no_duplicates(); }
        let r = self.vertex_registry.get_or_insert_index(vertex);
        proof { lemma_registered(before, key_of(*vertex)); }
        r
    }
}

/// Quads between registered vertices, each four registry indices in order
/// round the quad.
pub struct FaceList {
    vertex_registry: VertexRegistry,
    faces: Vec<(usize, usize, usize, usize)>,
}

impl FaceList {
    /// The quads as registry indices.
    pub closed spec fn faces_view(&self) -> Seq<(usize, usize, usize, usize)> {
        self.faces@
    }

    /// An empty list.
    pub fn new() -> (r: Self)
        ensures
            r.collection_wf(),
            r.registry_view() == Seq::<VertexKey>::empty(),
            r.registry_objects() == Seq::<VertexObject>::empty(),
            r.faces_view() == Seq::<(usize, usize, usize, usize)>::empty(),
    {
        FaceList { vertex_registry: VertexRegistry::new(), faces: Vec::new() }
    }

    /// Registers the four corners in order and appends the quad; returns the
    /// quad's index.
    pub fn add_quad(&mut self, v1: VertexObject, v2: VertexObject, v3: VertexObject, v4: VertexObject) -> (r: usize)
        requires
            old(self).collection_wf(),
        ensures
            final(self).collection_wf(),
            final(self).registry_view() == registered(registered(registered(registered(
                old(self).registry_view(), key_of(v1)), key_of(v2)), key_of(v3)), key_of(v4)),
            final(self).registry_objects() == registered_object(registered_object(registered_object(registered_object(
                old(self).registry_objects(), v1), v2), v3), v4),
            final(self).faces_view().len() == old(self).faces_view().len() + 1,
            final(self).faces_view().drop_last() == old(self).faces_view(),
            final(self).faces_view().last().0 == final(self).registry_view().index_of(key_of(v1)),
            final(self).faces_view().last().1 == final(self).registry_view().index_of(key_of(v2)),
            final(self).faces_view().last().2 == final(self).registry_view().index_of(key_of(v3)),
            final(self).faces_view().last().3 == final(self).registry_view().index_of(key_of(v4)),
            r == old(self).faces_view().len(),
    {
        let i1 = self.get_or_insert_index(&v1);
        let ghost r1 = self.registry_view();
        proof { self.vertex_registry.lemma_no_duplicates(); }
        let i2 = self.get_or_insert_index(&v2);
        let ghost r2 = self.registry_view();
        proof { self.vertex_registry.lemma_no_duplicates(); }
        let i3 = self.get_or_insert_index(&v3);
        let ghost r3 = self.registry_view();
        proof { self.vertex_registry.lemma_no_duplicates(); }
        let i4 = self.get_or_insert_index(&v4);
        proof {
            lemma_registered(r1, key_of(v2));
            lemma_registered(r2, key_of(v3));
            lemma_registered(r3, key_of(v4));
            let fin = self.registry_view();
            assert(r1.is_prefix_of(r2));
            assert(r2.is_prefix_of(r3));
            assert(r3.is_prefix_of(fin));
            assert(r1.is_prefix_of(fin));
            assert(r2.is_prefix_of(fin));
            lemma_index_stable(r1, fin, key_of(v1));
            lemma_index_stable(r2, fin, key_of(v2));
            lemma_index_stable(r3, fin, key_of(v3));
        }
        self.faces.push((i1, i2, i3, i4));
        proof {
            assert(self.faces@.drop_last() =~= old(self).faces@);
            assert forall|f: int| 0 <= f < self.faces@.len() implies
                #[trigger] self.faces@[f].0 < self.registry_view().len()
                && self.faces@[f].1 < self.registry_view().len()
                && self.faces@[f].2 < self.registry_view().len()
                && self.faces@[f].3 < self.registry_view().len() by {
                if f < old(self).faces@.len() {
                    assert(self.faces@[f] == old(self).faces@[f]);
                }
            }
        }
        self.faces.len() - 1
    }

    /// The quads as registry indices.
    pub fn faces(&self) -> (r: Vec<(usize, usize, usize, usize)>)
        ensures
            r@ == self.faces_view(),
    {
        let mut out: Vec<(usize, usize, usize, usize)> = Vec::new();
        let mut i: usize = 0;
        while i < self.faces.len()
            invariant
                i <= self.faces@.len(),
                out@ == self.faces@.take(i as int),
            decreases self.faces@.len() - i,
        {
            out.push(self.faces[i]);
            assert(self.faces@.take(i + 1) =~= self.faces@.take(i as int).push(self.faces@[i as int]));
            i = i + 1;
        }
        assert(self.faces@.take(i as int) =~= self.faces@);
        out
    }
}

impl VertexCollection for FaceList {
    closed spec fn registry_view(&self) -> Seq<VertexKey> {
        self.vertex_registry.view()
    }

    closed spec fn registry_objects(&self) -> Seq<VertexObject> {
        self.vertex_registry.objects()
    }

    closed spec fn collection_wf(&self) -> bool {
        &&& self.vertex_registry.wf()
        &&& forall|f: int| 0 <= f < self.faces@.len() ==>
            #[trigger] self.faces@[f].0 < self.vertex_registry.view().len()
            && self.faces@[f].1 < self.vertex_registry.view().len()
            && self.faces@[f].2 < self.vertex_registry.view().len()
            && self.faces@[f].3 < self.vertex_registry.view().len()
    }

    fn vertex_registry(&self) -> (r: &VertexRegistry) {
        &self.vertex_registry
    }

    fn get_or_insert_index(&mut self, vertex: &VertexObject) -> (r: usize)
        ensures
            final(self).faces_view() == old(self).faces_view(),
    {
        let ghost before = self.vertex_registry.view();
        proof { self.vertex_registry.lemma_no_duplicates(); }
        let r = self.vertex_registry.get_or_insert_index(vertex);
        proof { lemma_registered(before, key_of(*vertex)); }
        r
    }
}

} // verus!
