//! The element lists of the 3D visualization, generated over a grid of
//! vertices: one vertex per combination of channel steps.

use vstd::prelude::*;

use crate::geometry::{edge_offset, face_offset, wrap_index, Dimensionality, SlicingMethod};
use crate::lists::{EdgeList, FaceList, VertexCollection, VertexList};
use crate::registry::{
    lemma_index_stable, lemma_registered_all, lemma_registered_all_append, lemma_registered_all_from,
    lemma_registered_objects_all_append, lemma_registered_objects_all_keys, keys_of, registered, registered_all, registered_object, registered_objects_all,
    VertexKey,
};
use crate::vertex::{key_of, VertexObject};
use vstd::arithmetic::div_mod::lemma_small_mod;

verus! {

/// What a grid walk is asked for: the element kind, the slicing direction,
/// and the number of steps of each of the three channels.
#[derive(Debug, Clone, Copy)]
pub struct GridPlan {
    pub dimensionality: Dimensionality,
    pub face_slicing: SlicingMethod,
    pub len_a: usize,
    pub len_b: usize,
    pub len_c: usize,
}

/// The vertices of the grid, indexed by channel-a, channel-b and channel-c step.
pub type VertexGrid = Vec<Vec<Vec<VertexObject>>>;

/// The grid has `len_a` by `len_b` by `len_c` vertices.
pub open spec fn grid_fits(grid: VertexGrid, plan: GridPlan) -> bool {
    &&& grid@.len() == plan.len_a
    &&& forall|i: int| 0 <= i < plan.len_a ==> #[trigger] grid@[i]@.len() == plan.len_b
    &&& forall|i: int, j: int| 0 <= i < plan.len_a && 0 <= j < plan.len_b
        ==> #[trigger] grid@[i]@[j]@.len() == plan.len_c
}

/// The key of the grid vertex at a cell.
pub open spec fn key_at(grid: VertexGrid, c: (int, int, int)) -> VertexKey {
    key_of(vertex_at(grid, c))
}

/// The grid vertex at a cell.
pub open spec fn vertex_at(grid: VertexGrid, c: (int, int, int)) -> VertexObject {
    grid@[c.0]@[c.1]@[c.2]
}

/// `i + o` wrapped around `l`.
pub open spec fn wrap(i: int, o: int, l: int) -> int {
    (i + o) % l
}

/// How many steps of a channel of `l` steps start an element: all of them
/// for vertices, all but the last for the other kinds.
pub open spec fn bound(dim: Dimensionality, l: int) -> int {
    if dim == Dimensionality::Vertex || l == 0 { l } else { l - 1 }
}

/// The cell at offset `o` (taken from a corner table) from cell `(i, j, k)`.
pub open spec fn offset_cell(plan: GridPlan, i: int, j: int, k: int, o0: int, o1: int, o2: int) -> (int, int, int) {
    (wrap(i, o0, plan.len_a as int), wrap(j, o1, plan.len_b as int), wrap(k, o2, plan.len_c as int))
}

/// The four corners of the unit quad of slicing `s` at cell `(i, j, k)`.
pub open spec fn quad_at(plan: GridPlan, s: SlicingMethod, i: int, j: int, k: int) -> Seq<(int, int, int)> {
    Seq::new(4, |c: int| offset_cell(plan, i, j, k,
        face_offset(s, c, 0) as int, face_offset(s, c, 1) as int, face_offset(s, c, 2) as int))
}

/// The two ends of the unit edge of the plan's slicing at cell `(i, j, k)`.
pub open spec fn edge_at(plan: GridPlan, i: int, j: int, k: int) -> Seq<(int, int, int)> {
    let s = plan.face_slicing;
    seq![(i, j, k), offset_cell(plan, i, j, k,
        edge_offset(s, 1, 0) as int, edge_offset(s, 1, 1) as int, edge_offset(s, 1, 2) as int)]
}

/// The elements that cell `(i, j, k)` contributes, each as its corner cells:
/// a vertex, an edge, or a quad; for volumes, one quad for each axis along
/// which the cell stands at the first step or at the next-to-last step.
pub open spec fn cell_primitives(plan: GridPlan, i: int, j: int, k: int) -> Seq<Seq<(int, int, int)>> {
    match plan.dimensionality {
        Dimensionality::Vertex => seq![seq![(i, j, k)]],
        Dimensionality::Edge => seq![edge_at(plan, i, j, k)],
        Dimensionality::Face => seq![quad_at(plan, plan.face_slicing, i, j, k)],
        Dimensionality::Volume =>
            (if i == 0 || i == plan.len_a - 2 { seq![quad_at(plan, SlicingMethod::X, i, j, k)] } else { seq![] })
            + (if j == 0 || j == plan.len_b - 2 { seq![quad_at(plan, SlicingMethod::Y, i, j, k)] } else { seq![] })
            + (if k == 0 || k == plan.len_c - 2 { seq![quad_at(plan, SlicingMethod::Z, i, j, k)] } else { seq![] }),
    }
}

/// Elements of cells `(i, j, 0..k)`, in order.
pub open spec fn row_primitives(plan: GridPlan, i: int, j: int, k: int) -> Seq<Seq<(int, int, int)>>
    decreases k,
{
    if k <= 0 {
        seq![]
    } else {
        row_primitives(plan, i, j, k - 1) + cell_primitives(plan, i, j, k - 1)
    }
}

/// Elements of cells `(i, 0..j, _)`, in order.
pub open spec fn plane_primitives(plan: GridPlan, i: int, j: int) -> Seq<Seq<(int, int, int)>>
    decreases j,
{
    if j <= 0 {
        seq![]
    } else {
        plane_primitives(plan, i, j - 1)
            + row_primitives(plan, i, j - 1, bound(plan.dimensionality, plan.len_c as int))
    }
}

/// Elements of cells `(0..i, _, _)`, in order.
pub open spec fn grid_primitives(plan: GridPlan, i: int) -> Seq<Seq<(int, int, int)>>
    decreases i,
{
    if i <= 0 {
        seq![]
    } else {
        grid_primitives(plan, i - 1)
            + plane_primitives(plan, i - 1, bound(plan.dimensionality, plan.len_b as int))
    }
}

/// Every element of the whole grid walk, in the order the walk makes them.
pub open spec fn all_primitives(plan: GridPlan) -> Seq<Seq<(int, int, int)>> {
    grid_primitives(plan, bound(plan.dimensionality, plan.len_a as int))
}

/// The keys of the corners of the elements, element after element.
pub open spec fn primitive_keys(grid: VertexGrid, prims: Seq<Seq<(int, int, int)>>) -> Seq<VertexKey>
    decreases prims.len(),
{
    if prims.len() == 0 {
        seq![]
    } else {
        primitive_keys(grid, prims.drop_last()) + prims.last().map_values(|c: (int, int, int)| key_at(grid, c))
    }
}

/// Each element's corners as indices into a registry.
pub open spec fn indexed_primitives(reg: Seq<VertexKey>, grid: VertexGrid, prims: Seq<Seq<(int, int, int)>>) -> Seq<Seq<int>> {
    prims.map_values(|p: Seq<(int, int, int)>| p.map_values(|c: (int, int, int)| reg.index_of(key_at(grid, c))))
}

/// The registry that results from registering every corner of the elements.
pub open spec fn registry_of(grid: VertexGrid, prims: Seq<Seq<(int, int, int)>>) -> Seq<VertexKey> {
    registered_all(Seq::empty(), primitive_keys(grid, prims))
}

/// The corner vertices of the elements, element after element.
pub open spec fn primitive_vertices(grid: VertexGrid, prims: Seq<Seq<(int, int, int)>>) -> Seq<VertexObject>
    decreases prims.len(),
{
    if prims.len() == 0 {
        seq![]
    } else {
        primitive_vertices(grid, prims.drop_last()) + prims.last().map_values(|c: (int, int, int)| vertex_at(grid, c))
    }
}

/// The registered vertices, each as first met, after registering every
/// corner of the elements.
pub open spec fn registry_objects_of(grid: VertexGrid, prims: Seq<Seq<(int, int, int)>>) -> Seq<VertexObject> {
    registered_objects_all(Seq::empty(), primitive_vertices(grid, prims))
}


/// The corners of each element are keys of the walk's corner stream.
pub proof fn lemma_primitive_keys_contain(grid: VertexGrid, prims: Seq<Seq<(int, int, int)>>, n: int, t: int)
    requires
        0 <= n < prims.len(),
        0 <= t < prims[n].len(),
    ensures
        primitive_keys(grid, prims).contains(key_at(grid, prims[n][t])),
    decreases prims.len(),
{
    let front = primitive_keys(grid, prims.drop_last());
    let back = prims.last().map_values(|c: (int, int, int)| key_at(grid, c));
    if n == prims.len() - 1 {
        assert((front + back)[front.len() + t] == key_at(grid, prims[n][t]));
    } else {
        assert(prims.drop_last()[n] == prims[n]);
        lemma_primitive_keys_contain(grid, prims.drop_last(), n, t);
        let w = choose|w: int| 0 <= w < front.len() && front[w] == key_at(grid, prims[n][t]);
        assert((front + back)[w] == front[w]);
    }
}

/// Registering a two-key stream is registering its keys in turn.
pub proof fn lemma_registered_all_two(reg: Seq<VertexKey>, ks: Seq<VertexKey>)
    requires
        ks.len() == 2,
    ensures
        registered_all(reg, ks) == registered(registered(reg, ks[0]), ks[1]),
{
    let k1 = ks.drop_last();
    assert(k1.drop_last() =~= Seq::<VertexKey>::empty());
    assert(k1.last() == ks[0]);
    assert(registered_all(reg, k1.drop_last()) == reg);
    assert(registered_all(reg, k1) == registered(reg, ks[0]));
    assert(registered_all(reg, ks) == registered(registered_all(reg, k1), ks[1]));
}

/// Registering a four-key stream is registering its keys in turn.
pub proof fn lemma_registered_all_four(reg: Seq<VertexKey>, ks: Seq<VertexKey>)
    requires
        ks.len() == 4,
    ensures
        registered_all(reg, ks) == registered(registered(registered(registered(reg, ks[0]), ks[1]), ks[2]), ks[3]),
{
    let k3 = ks.drop_last();
    let k2 = k3.drop_last();
    let k1 = k2.drop_last();
    assert(k1.drop_last() =~= Seq::<VertexKey>::empty());
    assert(k1.last() == ks[0]);
    assert(k2.last() == ks[1]);
    assert(k3.last() == ks[2]);
    assert(registered_all(reg, k1.drop_last()) == reg);
    assert(registered_all(reg, k1) == registered(reg, ks[0]));
    assert(registered_all(reg, k2) == registered(registered_all(reg, k1), ks[1]));
    assert(registered_all(reg, k3) == registered(registered_all(reg, k2), ks[2]));
    assert(registered_all(reg, ks) == registered(registered_all(reg, k3), ks[3]));
}

/// Appending one element to the walk registers its corners after the earlier
/// ones and leaves the earlier elements' indices as they were.
pub proof fn lemma_push_primitive(grid: VertexGrid, prims: Seq<Seq<(int, int, int)>>, q: Seq<(int, int, int)>)
    ensures
        registry_of(grid, prims.push(q))
            == registered_all(registry_of(grid, prims), q.map_values(|c: (int, int, int)| key_at(grid, c))),
        registry_of(grid, prims.push(q)).no_duplicates(),
        registry_of(grid, prims).no_duplicates(),
        registry_of(grid, prims).is_prefix_of(registry_of(grid, prims.push(q))),
        indexed_primitives(registry_of(grid, prims.push(q)), grid, prims.push(q))
            == indexed_primitives(registry_of(grid, prims), grid, prims).push(
                q.map_values(|c: (int, int, int)| registry_of(grid, prims.push(q)).index_of(key_at(grid, c)))),
{
    let qk = q.map_values(|c: (int, int, int)| key_at(grid, c));
    let pk = primitive_keys(grid, prims);
    assert(prims.push(q).drop_last() =~= prims);
    assert(primitive_keys(grid, prims.push(q)) == pk + qk);
    lemma_registered_all_append(Seq::empty(), pk, qk);
    let old_reg = registry_of(grid, prims);
    let new_reg = registry_of(grid, prims.push(q));
    assert(Seq::<VertexKey>::empty().no_duplicates());
    lemma_registered_all(Seq::empty(), pk);
    lemma_registered_all(old_reg, qk);
    let lhs = indexed_primitives(new_reg, grid, prims.push(q));
    let rhs = indexed_primitives(old_reg, grid, prims).push(
        q.map_values(|c: (int, int, int)| new_reg.index_of(key_at(grid, c))));
    assert forall|n: int| 0 <= n < prims.len() implies #[trigger] lhs[n] =~= rhs[n] by {
        assert(prims.push(q)[n] == prims[n]);
        assert forall|t: int| 0 <= t < prims[n].len() implies
            new_reg.index_of(key_at(grid, prims[n][t])) == old_reg.index_of(key_at(grid, prims[n][t])) by {
            lemma_primitive_keys_contain(grid, prims, n, t);
            let key = key_at(grid, prims[n][t]);
            let w = choose|w: int| 0 <= w < pk.len() && pk[w] == key;
            assert(old_reg.contains(pk[w]));
            lemma_index_stable(old_reg, new_reg, key);
        }
    }
    assert(lhs =~= rhs);
}

/// Registering a two-vertex stream is registering its vertices in turn.
pub proof fn lemma_registered_objects_all_two(objs: Seq<VertexObject>, vs: Seq<VertexObject>)
    requires
        vs.len() == 2,
    ensures
        registered_objects_all(objs, vs) == registered_object(registered_object(objs, vs[0]), vs[1]),
{
    let v1 = vs.drop_last();
    assert(v1.drop_last() =~= Seq::<VertexObject>::empty());
    assert(v1.last() == vs[0]);
    assert(registered_objects_all(objs, v1.drop_last()) == objs);
    assert(registered_objects_all(objs, v1) == registered_object(objs, vs[0]));
    assert(registered_objects_all(objs, vs) == registered_object(registered_objects_all(objs, v1), vs[1]));
}

/// Registering a four-vertex stream is registering its vertices in turn.
pub proof fn lemma_registered_objects_all_four(objs: Seq<VertexObject>, vs: Seq<VertexObject>)
    requires
        vs.len() == 4,
    ensures
        registered_objects_all(objs, vs) == registered_object(registered_object(registered_object(registered_object(
            objs, vs[0]), vs[1]), vs[2]), vs[3]),
{
    let v3 = vs.drop_last();
    let v2 = v3.drop_last();
    let v1 = v2.drop_last();
    assert(v1.drop_last() =~= Seq::<VertexObject>::empty());
    assert(v1.last() == vs[0]);
    assert(v2.last() == vs[1]);
    assert(v3.last() == vs[2]);
    assert(registered_objects_all(objs, v1.drop_last()) == objs);
    assert(registered_objects_all(objs, v1) == registered_object(objs, vs[0]));
    assert(registered_objects_all(objs, v2) == registered_object(registered_objects_all(objs, v1), vs[1]));
    assert(registered_objects_all(objs, v3) == registered_object(registered_objects_all(objs, v2), vs[2]));
    assert(registered_objects_all(objs, vs) == registered_object(registered_objects_all(objs, v3), vs[3]));
}

/// Appending one element registers its corner vertices after the earlier ones.
pub proof fn lemma_push_primitive_objects(grid: VertexGrid, prims: Seq<Seq<(int, int, int)>>, q: Seq<(int, int, int)>)
    ensures
        registry_objects_of(grid, prims.push(q)) == registered_objects_all(
            registry_objects_of(grid, prims), q.map_values(|c: (int, int, int)| vertex_at(grid, c))),
{
    let qv = q.map_values(|c: (int, int, int)| vertex_at(grid, c));
    assert(prims.push(q).drop_last() =~= prims);
    assert(primitive_vertices(grid, prims.push(q)) == primitive_vertices(grid, prims) + qv);
    lemma_registered_objects_all_append(Seq::empty(), primitive_vertices(grid, prims), qv);
}

/// The element lists of the 3D visualization, one kind per dimensionality.
pub enum DimensionList {
    Vertex(VertexList),
    Edge(EdgeList),
    Face(FaceList),
    Volume(FaceList),
}

/// Edges as index sequences.
pub open spec fn edge_index_seqs(edges: Seq<(usize, usize)>) -> Seq<Seq<int>> {
    edges.map_values(|e: (usize, usize)| seq![e.0 as int, e.1 as int])
}

/// Quads as index sequences.
pub open spec fn face_index_seqs(faces: Seq<(usize, usize, usize, usize)>) -> Seq<Seq<int>> {
    faces.map_values(|f: (usize, usize, usize, usize)| seq![f.0 as int, f.1 as int, f.2 as int, f.3 as int])
}

impl DimensionList {
    /// The kind of element the list holds.
    pub open spec fn kind(&self) -> Dimensionality {
        match self {
            DimensionList::Vertex(_) => Dimensionality::Vertex,
            DimensionList::Edge(_) => Dimensionality::Edge,
            DimensionList::Face(_) => Dimensionality::Face,
            DimensionList::Volume(_) => Dimensionality::Volume,
        }
    }

    /// The registered vertices.
    pub open spec fn registry_view(&self) -> Seq<VertexKey> {
        match self {
            DimensionList::Vertex(l) => l.registry_view(),
            DimensionList::Edge(l) => l.registry_view(),
            DimensionList::Face(l) => l.registry_view(),
            DimensionList::Volume(l) => l.registry_view(),
        }
    }

    /// The registered vertices as first registered.
    pub open spec fn registry_objects(&self) -> Seq<VertexObject> {
        match self {
            DimensionList::Vertex(l) => l.registry_objects(),
            DimensionList::Edge(l) => l.registry_objects(),
            DimensionList::Face(l) => l.registry_objects(),
            DimensionList::Volume(l) => l.registry_objects(),
        }
    }

    /// The elements as registry indices (vertex lists keep only the registry).
    pub open spec fn primitives_view(&self) -> Seq<Seq<int>> {
        match self {
            DimensionList::Vertex(_) => seq![],
            DimensionList::Edge(l) => edge_index_seqs(l.edges_view()),
            DimensionList::Face(l) => face_index_seqs(l.faces_view()),
            DimensionList::Volume(l) => face_index_seqs(l.faces_view()),
        }
    }

    /// The inner list is well formed.
    pub open spec fn wf(&self) -> bool {
        match self {
            DimensionList::Vertex(l) => l.collection_wf(),
            DimensionList::Edge(l) => l.collection_wf(),
            DimensionList::Face(l) => l.collection_wf(),
            DimensionList::Volume(l) => l.collection_wf(),
        }
    }

    /// The list is what walking the given elements over the grid produces.
    pub open spec fn holds(&self, grid: VertexGrid, plan: GridPlan, prims: Seq<Seq<(int, int, int)>>) -> bool {
        &&& self.wf()
        &&& self.kind() == plan.dimensionality
        &&& self.registry_view() == registry_of(grid, prims)
        &&& self.registry_objects() == registry_objects_of(grid, prims)
        &&& plan.dimensionality != Dimensionality::Vertex
            ==> self.primitives_view() == indexed_primitives(self.registry_view(), grid, prims)
    }
}


/// The grid vertex at the cell reached from `(i, j, k)` by offset `o`.
fn offset_vertex(grid: &VertexGrid, plan: &GridPlan, i: usize, j: usize, k: usize, o0: usize, o1: usize, o2: usize) -> (v: VertexObject)
    requires
        grid_fits(*grid, *plan),
        i < plan.len_a,
        j < plan.len_b,
        k < plan.len_c,
        o0 <= 1,
        o1 <= 1,
        o2 <= 1,
    ensures
        v == vertex_at(*grid, offset_cell(*plan, i as int, j as int, k as int, o0 as int, o1 as int, o2 as int)),
{
    let a = wrap_index(i, o0, plan.len_a);
    let b = wrap_index(j, o1, plan.len_b);
    let c = wrap_index(k, o2, plan.len_c);
    grid[a][b][c]
}

/// Adds the unit quad of slicing `s` at cell `(i, j, k)` to a face list.
fn add_grid_quad(
    face_list: &mut FaceList,
    grid: &VertexGrid,
    plan: &GridPlan,
    s: SlicingMethod,
    i: usize,
    j: usize,
    k: usize,
    Ghost(prims): Ghost<Seq<Seq<(int, int, int)>>>,
)
    requires
        grid_fits(*grid, *plan),
        i < plan.len_a,
        j < plan.len_b,
        k < plan.len_c,
        old(face_list).collection_wf(),
        old(face_list).registry_view() == registry_of(*grid, prims),
        old(face_list).registry_objects() == registry_objects_of(*grid, prims),
        face_index_seqs(old(face_list).faces_view()) == indexed_primitives(old(face_list).registry_view(), *grid, prims),
    ensures
        final(face_list).collection_wf(),
        final(face_list).registry_view() == registry_of(*grid, prims.push(quad_at(*plan, s, i as int, j as int, k as int))),
        final(face_list).registry_objects() == registry_objects_of(*grid, prims.push(quad_at(*plan, s, i as int, j as int, k as int))),
        face_index_seqs(final(face_list).faces_view()) == indexed_primitives(
            final(face_list).registry_view(), *grid, prims.push(quad_at(*plan, s, i as int, j as int, k as int))),
{
    let ghost q = quad_at(*plan, s, i as int, j as int, k as int);
    let offsets = s.get_face_offsets();
    let mut verts: Vec<VertexObject> = Vec::new();
    let mut c: usize = 0;
    while c < 4
        invariant
            grid_fits(*grid, *plan),
            i < plan.len_a,
            j < plan.len_b,
            k < plan.len_c,
            c <= 4,
            q == quad_at(*plan, s, i as int, j as int, k as int),
            forall|x: int, a: int| 0 <= x < 4 && 0 <= a < 3 ==> #[trigger] offsets[x][a] == face_offset(s, x, a),
            verts@.len() == c,
            forall|t: int| 0 <= t < c ==> #[trigger] verts@[t] == vertex_at(*grid, q[t]),
        decreases 4 - c,
    {
        let o = offsets[c];
        assert(o[0] == face_offset(s, c as int, 0));
        assert(o[1] == face_offset(s, c as int, 1));
        assert(o[2] == face_offset(s, c as int, 2));
        let v = offset_vertex(grid, plan, i, j, k, o[0], o[1], o[2]);
        verts.push(v);
        c = c + 1;
    }
    let ghost reg0 = face_list.registry_view();
    let ghost objs0 = face_list.registry_objects();
    let ghost faces0 = face_list.faces_view();
    face_list.add_quad(verts[0], verts[1], verts[2], verts[3]);
    proof {
        let qv = q.map_values(|c: (int, int, int)| vertex_at(*grid, c));
        assert(qv[0] == verts@[0]);
        assert(qv[1] == verts@[1]);
        assert(qv[2] == verts@[2]);
        assert(qv[3] == verts@[3]);
        lemma_registered_objects_all_four(objs0, qv);
        lemma_push_primitive_objects(*grid, prims, q);
        let qk = q.map_values(|c: (int, int, int)| key_at(*grid, c));
        assert(qk[0] == key_of(verts@[0]));
        assert(qk[1] == key_of(verts@[1]));
        assert(qk[2] == key_of(verts@[2]));
        assert(qk[3] == key_of(verts@[3]));
        lemma_registered_all_four(reg0, qk);
        lemma_push_primitive(*grid, prims, q);
        let reg1 = face_list.registry_view();
        let f1 = face_list.faces_view();
        let last = f1.last();
        assert(f1 =~= faces0.push(last));
        assert(face_index_seqs(f1) =~= face_index_seqs(faces0).push(seq![last.0 as int, last.1 as int, last.2 as int, last.3 as int]));
        assert(seq![last.0 as int, last.1 as int, last.2 as int, last.3 as int]
            =~= q.map_values(|c: (int, int, int)| reg1.index_of(key_at(*grid, c))));
    }
}

/// Adds the unit edge of the plan's slicing at cell `(i, j, k)` to an edge list.
fn add_grid_edge(
    edge_list: &mut EdgeList,
    grid: &VertexGrid,
    plan: &GridPlan,
    i: usize,
    j: usize,
    k: usize,
    Ghost(prims): Ghost<Seq<Seq<(int, int, int)>>>,
)
    requires
        grid_fits(*grid, *plan),
        i < plan.len_a,
        j < plan.len_b,
        k < plan.len_c,
        old(edge_list).collection_wf(),
        old(edge_list).registry_view() == registry_of(*grid, prims),
        old(edge_list).registry_objects() == registry_objects_of(*grid, prims),
        edge_index_seqs(old(edge_list).edges_view()) == indexed_primitives(old(edge_list).registry_view(), *grid, prims),
    ensures
        final(edge_list).collection_wf(),
        final(edge_list).registry_view() == registry_of(*grid, prims.push(edge_at(*plan, i as int, j as int, k as int))),
        final(edge_list).registry_objects() == registry_objects_of(*grid, prims.push(edge_at(*plan, i as int, j as int, k as int))),
        edge_index_seqs(final(edge_list).edges_view()) == indexed_primitives(
            final(edge_list).registry_view(), *grid, prims.push(edge_at(*plan, i as int, j as int, k as int))),
{
    let ghost q = edge_at(*plan, i as int, j as int, k as int);
    let slice_offset = plan.face_slicing.get_edge_offsets();
    let o = slice_offset[1];
    assert(o[0] == edge_offset(plan.face_slicing, 1, 0));
    assert(o[1] == edge_offset(plan.face_slicing, 1, 1));
    assert(o[2] == edge_offset(plan.face_slicing, 1, 2));
    let point_1 = grid[i][j][k];
    let point_2 = offset_vertex(grid, plan, i, j, k, o[0], o[1], o[2]);
    let ghost reg0 = edge_list.registry_view();
    let ghost objs0 = edge_list.registry_objects();
    let ghost edges0 = edge_list.edges_view();
    edge_list.add_edge(point_1, point_2);
    proof {
        let qv = q.map_values(|c: (int, int, int)| vertex_at(*grid, c));
        assert(qv[0] == point_1);
        assert(qv[1] == point_2);
        lemma_registered_objects_all_two(objs0, qv);
        lemma_push_primitive_objects(*grid, prims, q);
        let qk = q.map_values(|c: (int, int, int)| key_at(*grid, c));
        assert(qk[0] == key_of(point_1));
        assert(qk[1] == key_of(point_2));
        lemma_registered_all_two(reg0, qk);
        lemma_push_primitive(*grid, prims, q);
        let reg1 = edge_list.registry_view();
        let e1 = edge_list.edges_view();
        let last = e1.last();
        assert(e1 =~= edges0.push(last));
        assert(edge_index_seqs(e1) =~= edge_index_seqs(edges0).push(seq![last.0 as int, last.1 as int]));
        assert(seq![last.0 as int, last.1 as int]
            =~= q.map_values(|c: (int, int, int)| reg1.index_of(key_at(*grid, c))));
    }
}


/// Whether cell `(i, j, k)` is one the walk visits.
pub open spec fn cell_in_walk(plan: GridPlan, i: int, j: int, k: int) -> bool {
    &&& 0 <= i < bound(plan.dimensionality, plan.len_a as int)
    &&& 0 <= j < bound(plan.dimensionality, plan.len_b as int)
    &&& 0 <= k < bound(plan.dimensionality, plan.len_c as int)
}

/// Adds the elements of cell `(i, j, k)` to the list.
fn add_cell(
    dim_list: DimensionList,
    grid: &VertexGrid,
    plan: &GridPlan,
    i: usize,
    j: usize,
    k: usize,
    Ghost(prims): Ghost<Seq<Seq<(int, int, int)>>>,
) -> (r: DimensionList)
    requires
        grid_fits(*grid, *plan),
        cell_in_walk(*plan, i as int, j as int, k as int),
        dim_list.holds(*grid, *plan, prims),
    ensures
        r.holds(*grid, *plan, prims + cell_primitives(*plan, i as int, j as int, k as int)),
{
    let ghost cell = cell_primitives(*plan, i as int, j as int, k as int);
    match dim_list {
        DimensionList::Vertex(mut vertex_list) => {
            let point_1 = grid[i][j][k];
            let ghost q = seq![(i as int, j as int, k as int)];
            let ghost reg0 = vertex_list.registry_view();
            let ghost objs0 = vertex_list.registry_objects();
            vertex_list.add_vertex(&point_1);
            proof {
                let qv = q.map_values(|c: (int, int, int)| vertex_at(*grid, c));
                assert(qv.drop_last() =~= Seq::<VertexObject>::empty());
                assert(qv.last() == point_1);
                assert(registered_objects_all(objs0, qv.drop_last()) == objs0);
                lemma_push_primitive_objects(*grid, prims, q);
                let qk = q.map_values(|c: (int, int, int)| key_at(*grid, c));
                assert(qk.drop_last() =~= Seq::<VertexKey>::empty());
                assert(qk.last() == key_of(point_1));
                assert(registered_all(reg0, qk.drop_last()) == reg0);
                assert(registered_all(reg0, qk) == registered(reg0, key_of(point_1)));
                lemma_push_primitive(*grid, prims, q);
                assert(prims + cell =~= prims.push(q));
            }
            DimensionList::Vertex(vertex_list)
        },
        DimensionList::Edge(mut edge_list) => {
            add_grid_edge(&mut edge_list, grid, plan, i, j, k, Ghost(prims));
            proof {
                assert(prims + cell =~= prims.push(edge_at(*plan, i as int, j as int, k as int)));
            }
            DimensionList::Edge(edge_list)
        },
        DimensionList::Face(mut face_list) => {
            add_grid_quad(&mut face_list, grid, plan, plan.face_slicing, i, j, k, Ghost(prims));
            proof {
                assert(prims + cell =~= prims.push(quad_at(*plan, plan.face_slicing, i as int, j as int, k as int)));
            }
            DimensionList::Face(face_list)
        },
        DimensionList::Volume(mut face_list) => {
            let ghost mut done = prims;
            let ghost qx = quad_at(*plan, SlicingMethod::X, i as int, j as int, k as int);
            let ghost qy = quad_at(*plan, SlicingMethod::Y, i as int, j as int, k as int);
            let ghost qz = quad_at(*plan, SlicingMethod::Z, i as int, j as int, k as int);
            let ghost part_x: Seq<Seq<(int, int, int)>> =
                if i == 0 || i == plan.len_a - 2 { seq![qx] } else { seq![] };
            let ghost part_y: Seq<Seq<(int, int, int)>> =
                if j == 0 || j == plan.len_b - 2 { seq![qy] } else { seq![] };
            let ghost part_z: Seq<Seq<(int, int, int)>> =
                if k == 0 || k == plan.len_c - 2 { seq![qz] } else { seq![] };
            if i == 0 || i == plan.len_a - 2 {
                add_grid_quad(&mut face_list, grid, plan, SlicingMethod::X, i, j, k, Ghost(done));
                proof { done = done.push(qx); }
            }
            assert(done =~= prims + part_x);
            if j == 0 || j == plan.len_b - 2 {
                add_grid_quad(&mut face_list, grid, plan, SlicingMethod::Y, i, j, k, Ghost(done));
                proof { done = done.push(qy); }
            }
            assert(done =~= prims + part_x + part_y);
            if k == 0 || k == plan.len_c - 2 {
                add_grid_quad(&mut face_list, grid, plan, SlicingMethod::Z, i, j, k, Ghost(done));
                proof { done = done.push(qz); }
            }
            assert(done =~= prims + part_x + part_y + part_z);
            assert(cell =~= part_x + part_y + part_z);
            assert(prims + cell =~= prims + part_x + part_y + part_z);
            DimensionList::Volume(face_list)
        },
    }
}


/// The number of the first `n` steps of a channel that start elements.
pub open spec fn visited(n: int, b: int) -> int {
    if n < b { n } else { b }
}

/// Walks the grid in channel-a, channel-b, channel-c order and collects the
/// elements of the plan's kind. For vertices every grid vertex is added; for
/// the other kinds the last step of each channel only closes elements: each
/// cell adds an edge or a quad along the plan's slicing, or, for volumes, one
/// quad flat in each channel's axis for which the cell's step is the first
/// or the next-to-last one (so the far side is drawn one layer in from the
/// grid's last step). Every vertex is registered once, as first met, in the
/// order of first use, and elements refer to vertices by registry index.
pub fn generate_dimension_lists(grid: &VertexGrid, plan: &GridPlan) -> (r: DimensionList)
    requires
        grid_fits(*grid, *plan),
    ensures
        r.holds(*grid, *plan, all_primitives(*plan)),
{
    let mut dim_list = match plan.dimensionality {
        Dimensionality::Vertex => DimensionList::Vertex(VertexList::new()),
        Dimensionality::Edge => DimensionList::Edge(EdgeList::new()),
        Dimensionality::Face => DimensionList::Face(FaceList::new()),
        Dimensionality::Volume => DimensionList::Volume(FaceList::new()),
    };
    proof {
        assert(registry_of(*grid, Seq::<Seq<(int, int, int)>>::empty()) =~= Seq::<VertexKey>::empty());
        assert(registry_objects_of(*grid, Seq::<Seq<(int, int, int)>>::empty()) =~= Seq::<VertexObject>::empty());
        assert(indexed_primitives(Seq::<VertexKey>::empty(), *grid, Seq::<Seq<(int, int, int)>>::empty())
            =~= Seq::<Seq<int>>::empty());
        assert(edge_index_seqs(Seq::<(usize, usize)>::empty()) =~= Seq::<Seq<int>>::empty());
        assert(face_index_seqs(Seq::<(usize, usize, usize, usize)>::empty()) =~= Seq::<Seq<int>>::empty());
        assert(grid_primitives(*plan, 0) =~= Seq::<Seq<(int, int, int)>>::empty());
    }
    let not_vertex = plan.dimensionality != Dimensionality::Vertex;
    let len_a = plan.len_a;
    let len_b = plan.len_b;
    let len_c = plan.len_c;
    let ghost ba = bound(plan.dimensionality, len_a as int);
    let ghost bb = bound(plan.dimensionality, len_b as int);
    let ghost bc = bound(plan.dimensionality, len_c as int);
    let mut index_of_a: usize = 0;
    while index_of_a < len_a
        invariant
            grid_fits(*grid, *plan),
            not_vertex == (plan.dimensionality != Dimensionality::Vertex),
            len_a == plan.len_a,
            len_b == plan.len_b,
            len_c == plan.len_c,
            ba == bound(plan.dimensionality, len_a as int),
            bb == bound(plan.dimensionality, len_b as int),
            bc == bound(plan.dimensionality, len_c as int),
            index_of_a <= len_a,
            dim_list.holds(*grid, *plan, grid_primitives(*plan, visited(index_of_a as int, ba))),
        decreases len_a - index_of_a,
    {
        if not_vertex && len_a - index_of_a <= 1 {
            index_of_a = index_of_a + 1;
            continue;
        }
        let ghost base_a = grid_primitives(*plan, index_of_a as int);
        proof { assert(plane_primitives(*plan, index_of_a as int, 0) =~= Seq::<Seq<(int, int, int)>>::empty()); }
        assert(base_a + plane_primitives(*plan, index_of_a as int, 0) =~= base_a);
        let mut index_of_b: usize = 0;
        while index_of_b < len_b
            invariant
                grid_fits(*grid, *plan),
                not_vertex == (plan.dimensionality != Dimensionality::Vertex),
                len_a == plan.len_a,
                len_b == plan.len_b,
                len_c == plan.len_c,
                ba == bound(plan.dimensionality, len_a as int),
                bb == bound(plan.dimensionality, len_b as int),
                bc == bound(plan.dimensionality, len_c as int),
                index_of_a < ba,
                index_of_b <= len_b,
                base_a == grid_primitives(*plan, index_of_a as int),
                dim_list.holds(*grid, *plan,
                    base_a + plane_primitives(*plan, index_of_a as int, visited(index_of_b as int, bb))),
            decreases len_b - index_of_b,
        {
            if not_vertex && len_b - index_of_b <= 1 {
                index_of_b = index_of_b + 1;
                continue;
            }
            let ghost base_b = base_a + plane_primitives(*plan, index_of_a as int, index_of_b as int);
            assert(base_b + row_primitives(*plan, index_of_a as int, index_of_b as int, 0) =~= base_b);
            let mut index_of_c: usize = 0;
            while index_of_c < len_c
                invariant
                    grid_fits(*grid, *plan),
                    not_vertex == (plan.dimensionality != Dimensionality::Vertex),
                    len_a == plan.len_a,
                    len_b == plan.len_b,
                    len_c == plan.len_c,
                    ba == bound(plan.dimensionality, len_a as int),
                    bb == bound(plan.dimensionality, len_b as int),
                    bc == bound(plan.dimensionality, len_c as int),
                    index_of_a < ba,
                    index_of_b < bb,
                    index_of_c <= len_c,
                    base_b == base_a + plane_primitives(*plan, index_of_a as int, index_of_b as int),
                    dim_list.holds(*grid, *plan,
                        base_b + row_primitives(*plan, index_of_a as int, index_of_b as int,
                            visited(index_of_c as int, bc))),
                decreases len_c - index_of_c,
            {
                if not_vertex && len_c - index_of_c <= 1 {
                    index_of_c = index_of_c + 1;
                    continue;
                }
                let ghost done = base_b + row_primitives(*plan, index_of_a as int, index_of_b as int, index_of_c as int);
                dim_list = add_cell(dim_list, grid, plan, index_of_a, index_of_b, index_of_c, Ghost(done));
                assert(done + cell_primitives(*plan, index_of_a as int, index_of_b as int, index_of_c as int)
                    =~= base_b + row_primitives(*plan, index_of_a as int, index_of_b as int, index_of_c + 1));
                index_of_c = index_of_c + 1;
            }
            assert(base_b + row_primitives(*plan, index_of_a as int, index_of_b as int, bc)
                =~= base_a + plane_primitives(*plan, index_of_a as int, index_of_b + 1));
            index_of_b = index_of_b + 1;
        }
        assert(base_a + plane_primitives(*plan, index_of_a as int, bb)
            =~= grid_primitives(*plan, index_of_a + 1));
        index_of_a = index_of_a + 1;
    }
    dim_list
}


/// Law: after a walk, every element refers, for each of its corners, to a
/// registry index that holds exactly that corner's vertex.
pub proof fn lemma_elements_refer_to_their_corners(dim_list: DimensionList, grid: VertexGrid, plan: GridPlan)
    requires
        dim_list.holds(grid, plan, all_primitives(plan)),
        plan.dimensionality != Dimensionality::Vertex,
    ensures
        dim_list.primitives_view().len() == all_primitives(plan).len(),
        forall|n: int, t: int| 0 <= n < all_primitives(plan).len() && 0 <= t < all_primitives(plan)[n].len() ==> {
            let x = #[trigger] dim_list.primitives_view()[n][t];
            &&& dim_list.primitives_view()[n].len() == all_primitives(plan)[n].len()
            &&& 0 <= x < dim_list.registry_view().len()
            &&& dim_list.registry_view()[x] == key_at(grid, all_primitives(plan)[n][t])
        },
{
    let prims = all_primitives(plan);
    let reg = dim_list.registry_view();
    let stream = primitive_keys(grid, prims);
    assert(Seq::<VertexKey>::empty().no_duplicates());
    lemma_registered_all(Seq::empty(), stream);
    assert forall|n: int, t: int| 0 <= n < prims.len() && 0 <= t < prims[n].len() implies {
        let x = #[trigger] dim_list.primitives_view()[n][t];
        &&& dim_list.primitives_view()[n].len() == prims[n].len()
        &&& 0 <= x < reg.len()
        &&& reg[x] == key_at(grid, prims[n][t])
    } by {
        lemma_primitive_keys_contain(grid, prims, n, t);
        let key = key_at(grid, prims[n][t]);
        let w = choose|w: int| 0 <= w < stream.len() && stream[w] == key;
        assert(reg.contains(stream[w]));
    }
}

/// Law: the registry holds each corner vertex of the walk exactly once and
/// nothing else.
pub proof fn lemma_registry_is_the_distinct_corners(dim_list: DimensionList, grid: VertexGrid, plan: GridPlan)
    requires
        dim_list.holds(grid, plan, all_primitives(plan)),
    ensures
        dim_list.registry_view().no_duplicates(),
        forall|key: VertexKey| dim_list.registry_view().contains(key)
            <==> primitive_keys(grid, all_primitives(plan)).contains(key),
{
    let stream = primitive_keys(grid, all_primitives(plan));
    assert(Seq::<VertexKey>::empty().no_duplicates());
    lemma_registered_all(Seq::empty(), stream);
    assert forall|key: VertexKey| dim_list.registry_view().contains(key) <==> stream.contains(key) by {
        if dim_list.registry_view().contains(key) {
            lemma_registered_all_from(Seq::empty(), stream, key);
        }
        if stream.contains(key) {
            let w = choose|w: int| 0 <= w < stream.len() && stream[w] == key;
            assert(dim_list.registry_view().contains(stream[w]));
        }
    }
}

/// The corner keys of the elements are the keys of their corner vertices.
proof fn lemma_primitive_keys_of_vertices(grid: VertexGrid, prims: Seq<Seq<(int, int, int)>>)
    ensures
        primitive_keys(grid, prims) == keys_of(primitive_vertices(grid, prims)),
    decreases prims.len(),
{
    if prims.len() > 0 {
        lemma_primitive_keys_of_vertices(grid, prims.drop_last());
        let q = prims.last();
        assert(keys_of(primitive_vertices(grid, prims.drop_last()) + q.map_values(|c: (int, int, int)| vertex_at(grid, c)))
            =~= keys_of(primitive_vertices(grid, prims.drop_last())) + q.map_values(|c: (int, int, int)| key_at(grid, c)));
    } else {
        assert(keys_of(primitive_vertices(grid, prims)) =~= Seq::<VertexKey>::empty());
    }
}

/// Law: the registered vertices of a walk carry exactly the registered keys,
/// position by position; each is the first corner vertex met with its key,
/// kept as it was met.
pub proof fn lemma_registered_vertices_match_keys(grid: VertexGrid, prims: Seq<Seq<(int, int, int)>>)
    ensures
        keys_of(registry_objects_of(grid, prims)) == registry_of(grid, prims),
{
    lemma_registered_objects_all_keys(Seq::empty(), primitive_vertices(grid, prims));
    lemma_primitive_keys_of_vertices(grid, prims);
    assert(keys_of(Seq::<VertexObject>::empty()) =~= Seq::<VertexKey>::empty());
}

/// A row of cells that each make one element makes one element per cell.
proof fn lemma_row_len(plan: GridPlan, i: int, j: int, k: int)
    requires
        plan.dimensionality != Dimensionality::Volume,
        k >= 0,
    ensures
        row_primitives(plan, i, j, k).len() == k,
    decreases k,
{
    if k > 0 {
        lemma_row_len(plan, i, j, k - 1);
    }
}

proof fn lemma_plane_len(plan: GridPlan, i: int, j: int)
    requires
        plan.dimensionality != Dimensionality::Volume,
        j >= 0,
    ensures
        plane_primitives(plan, i, j).len() == j * bound(plan.dimensionality, plan.len_c as int),
    decreases j,
{
    if j > 0 {
        lemma_plane_len(plan, i, j - 1);
        lemma_row_len(plan, i, j - 1, bound(plan.dimensionality, plan.len_c as int));
        assert((j - 1) * bound(plan.dimensionality, plan.len_c as int) + bound(plan.dimensionality, plan.len_c as int)
            == j * bound(plan.dimensionality, plan.len_c as int)) by (nonlinear_arith);
    } else {
        assert(0 * bound(plan.dimensionality, plan.len_c as int) == 0);
    }
}

proof fn lemma_grid_len(plan: GridPlan, i: int)
    requires
        plan.dimensionality != Dimensionality::Volume,
        i >= 0,
    ensures
        grid_primitives(plan, i).len() == i * (bound(plan.dimensionality, plan.len_b as int)
            * bound(plan.dimensionality, plan.len_c as int)),
    decreases i,
{
    let bb = bound(plan.dimensionality, plan.len_b as int);
    let bc = bound(plan.dimensionality, plan.len_c as int);
    if i > 0 {
        lemma_grid_len(plan, i - 1);
        lemma_plane_len(plan, i - 1, bb);
        assert((i - 1) * (bb * bc) + bb * bc == i * (bb * bc)) by (nonlinear_arith);
    } else {
        assert(0 * (bb * bc) == 0);
    }
}

/// In a walk that makes one element per cell, the element at `k` of row
/// `(i, j)` is the one of cell `(i, j, k)`.
proof fn lemma_row_index(plan: GridPlan, i: int, j: int, kk: int, k: int)
    requires
        plan.dimensionality != Dimensionality::Volume,
        0 <= k < kk,
    ensures
        row_primitives(plan, i, j, kk)[k] == cell_primitives(plan, i, j, k)[0],
    decreases kk,
{
    let prev = row_primitives(plan, i, j, kk - 1);
    let cell = cell_primitives(plan, i, j, kk - 1);
    lemma_row_len(plan, i, j, kk - 1);
    lemma_concat_index(prev, cell, k);
    if k < kk - 1 {
        lemma_row_index(plan, i, j, kk - 1, k);
    }
}

/// In a walk that makes one element per cell, the element at `j * bc + k` of
/// plane `i` is the one of cell `(i, j, k)`.
proof fn lemma_plane_index(plan: GridPlan, i: int, jj: int, j: int, k: int)
    requires
        plan.dimensionality != Dimensionality::Volume,
        0 <= j < jj,
        0 <= k < bound(plan.dimensionality, plan.len_c as int),
    ensures
        plane_primitives(plan, i, jj)[j * bound(plan.dimensionality, plan.len_c as int) + k]
            == cell_primitives(plan, i, j, k)[0],
    decreases jj,
{
    let bc = bound(plan.dimensionality, plan.len_c as int);
    let prev = plane_primitives(plan, i, jj - 1);
    let row = row_primitives(plan, i, jj - 1, bc);
    lemma_plane_len(plan, i, jj - 1);
    lemma_row_len(plan, i, jj - 1, bc);
    let n = j * bc + k;
    assert(0 <= n < (jj - 1) * bc + bc) by (nonlinear_arith)
        requires 0 <= j < jj, 0 <= k < bc, n == j * bc + k;
    lemma_concat_index(prev, row, n);
    if j < jj - 1 {
        assert(n < (jj - 1) * bc) by (nonlinear_arith)
            requires 0 <= j < jj - 1, 0 <= k < bc, n == j * bc + k;
        lemma_plane_index(plan, i, jj - 1, j, k);
    } else {
        assert(n - (jj - 1) * bc == k);
        lemma_row_index(plan, i, j, bc, k);
    }
}

/// In a walk that makes one element per cell, the element at
/// `(i * bb + j) * bc + k` is the one of cell `(i, j, k)`.
proof fn lemma_grid_index(plan: GridPlan, ii: int, i: int, j: int, k: int)
    requires
        plan.dimensionality != Dimensionality::Volume,
        0 <= i < ii,
        0 <= j < bound(plan.dimensionality, plan.len_b as int),
        0 <= k < bound(plan.dimensionality, plan.len_c as int),
    ensures
        grid_primitives(plan, ii)[(i * bound(plan.dimensionality, plan.len_b as int) + j)
            * bound(plan.dimensionality, plan.len_c as int) + k] == cell_primitives(plan, i, j, k)[0],
    decreases ii,
{
    let bb = bound(plan.dimensionality, plan.len_b as int);
    let bc = bound(plan.dimensionality, plan.len_c as int);
    let prev = grid_primitives(plan, ii - 1);
    let plane = plane_primitives(plan, ii - 1, bb);
    lemma_grid_len(plan, ii - 1);
    lemma_plane_len(plan, ii - 1, bb);
    let n = (i * bb + j) * bc + k;
    assert(0 <= n < (ii - 1) * (bb * bc) + bb * bc) by (nonlinear_arith)
        requires 0 <= i < ii, 0 <= j < bb, 0 <= k < bc, n == (i * bb + j) * bc + k;
    lemma_concat_index(prev, plane, n);
    if i < ii - 1 {
        assert(n < (ii - 1) * (bb * bc)) by (nonlinear_arith)
            requires 0 <= i < ii - 1, 0 <= j < bb, 0 <= k < bc, n == (i * bb + j) * bc + k;
        lemma_grid_index(plan, ii - 1, i, j, k);
    } else {
        assert(n - (ii - 1) * (bb * bc) == j * bc + k) by (nonlinear_arith)
            requires i == ii - 1, n == (i * bb + j) * bc + k;
        lemma_plane_index(plan, i, bb, j, k);
    }
}

/// Law: at a cell that is on no channel's last step, the unit quad of each
/// slicing is the square at that cell lying flat in the slicing's axis, its
/// corners going round from the cell itself: for X `(i, j, k)`,
/// `(i, j+1, k)`, `(i, j+1, k+1)`, `(i, j, k+1)`; for Y `(i, j, k)`,
/// `(i+1, j, k)`, `(i+1, j, k+1)`, `(i, j, k+1)`; for Z `(i, j, k)`,
/// `(i+1, j, k)`, `(i+1, j+1, k)`, `(i, j+1, k)`. These are the quads that
/// face and volume walks draw.
pub proof fn lemma_unit_quad_corners(plan: GridPlan, i: int, j: int, k: int)
    requires
        0 <= i && i + 1 < plan.len_a,
        0 <= j && j + 1 < plan.len_b,
        0 <= k && k + 1 < plan.len_c,
    ensures
        quad_at(plan, SlicingMethod::X, i, j, k) == seq![(i, j, k), (i, j + 1, k), (i, j + 1, k + 1), (i, j, k + 1)],
        quad_at(plan, SlicingMethod::Y, i, j, k) == seq![(i, j, k), (i + 1, j, k), (i + 1, j, k + 1), (i, j, k + 1)],
        quad_at(plan, SlicingMethod::Z, i, j, k) == seq![(i, j, k), (i + 1, j, k), (i + 1, j + 1, k), (i, j + 1, k)],
{
    lemma_small_mod((i + 1) as nat, plan.len_a as nat);
    lemma_small_mod((j + 1) as nat, plan.len_b as nat);
    lemma_small_mod((k + 1) as nat, plan.len_c as nat);
    lemma_small_mod(i as nat, plan.len_a as nat);
    lemma_small_mod(j as nat, plan.len_b as nat);
    lemma_small_mod(k as nat, plan.len_c as nat);
    assert(quad_at(plan, SlicingMethod::X, i, j, k) =~= seq![(i, j, k), (i, j + 1, k), (i, j + 1, k + 1), (i, j, k + 1)]);
    assert(quad_at(plan, SlicingMethod::Y, i, j, k) =~= seq![(i, j, k), (i + 1, j, k), (i + 1, j, k + 1), (i, j, k + 1)]);
    assert(quad_at(plan, SlicingMethod::Z, i, j, k) =~= seq![(i, j, k), (i + 1, j, k), (i + 1, j + 1, k), (i, j + 1, k)]);
}

/// Law: a face walk makes its quads cell by cell in channel-a, channel-b,
/// channel-c order, and the quad of cell `(i, j, k)` is the unit square at
/// that cell lying flat in the plan's slicing axis: for slicing X its corners
/// are `(i, j, k)`, `(i, j+1, k)`, `(i, j+1, k+1)`, `(i, j, k+1)`; for Y
/// `(i, j, k)`, `(i+1, j, k)`, `(i+1, j, k+1)`, `(i, j, k+1)`; for Z
/// `(i, j, k)`, `(i+1, j, k)`, `(i+1, j+1, k)`, `(i, j+1, k)`. After a walk
/// each quad refers to the registered vertices of exactly those grid cells.
pub proof fn lemma_face_quads_follow_slicing(dim_list: DimensionList, grid: VertexGrid, plan: GridPlan, i: int, j: int, k: int)
    requires
        plan.dimensionality == Dimensionality::Face,
        dim_list.holds(grid, plan, all_primitives(plan)),
        0 <= i && i + 1 < plan.len_a,
        0 <= j && j + 1 < plan.len_b,
        0 <= k && k + 1 < plan.len_c,
    ensures
        ({
            let n = (i * (plan.len_b - 1) + j) * (plan.len_c - 1) + k;
            let q = all_primitives(plan)[n];
            let corners: Seq<(int, int, int)> = match plan.face_slicing {
                SlicingMethod::X => seq![(i, j, k), (i, j + 1, k), (i, j + 1, k + 1), (i, j, k + 1)],
                SlicingMethod::Y => seq![(i, j, k), (i + 1, j, k), (i + 1, j, k + 1), (i, j, k + 1)],
                SlicingMethod::Z => seq![(i, j, k), (i + 1, j, k), (i + 1, j + 1, k), (i, j + 1, k)],
            };
            &&& 0 <= n < all_primitives(plan).len()
            &&& q == corners
            &&& dim_list.primitives_view()[n].len() == 4
            &&& forall|c: int| 0 <= c < 4 ==>
                    dim_list.registry_view()[#[trigger] dim_list.primitives_view()[n][c]] == key_at(grid, corners[c])
        }),
{
    let bb = plan.len_b - 1;
    let bc = plan.len_c - 1;
    let n = (i * bb + j) * bc + k;
    lemma_grid_len(plan, plan.len_a - 1);
    assert(n < (plan.len_a - 1) * (bb * bc)) by (nonlinear_arith)
        requires 0 <= i < plan.len_a - 1, 0 <= j < bb, 0 <= k < bc, n == (i * bb + j) * bc + k;
    lemma_grid_index(plan, plan.len_a - 1, i, j, k);
    let q = all_primitives(plan)[n];
    lemma_small_mod((i + 1) as nat, plan.len_a as nat);
    lemma_small_mod((j + 1) as nat, plan.len_b as nat);
    lemma_small_mod((k + 1) as nat, plan.len_c as nat);
    lemma_small_mod(i as nat, plan.len_a as nat);
    lemma_small_mod(j as nat, plan.len_b as nat);
    lemma_small_mod(k as nat, plan.len_c as nat);
    let corners: Seq<(int, int, int)> = match plan.face_slicing {
        SlicingMethod::X => seq![(i, j, k), (i, j + 1, k), (i, j + 1, k + 1), (i, j, k + 1)],
        SlicingMethod::Y => seq![(i, j, k), (i + 1, j, k), (i + 1, j, k + 1), (i, j, k + 1)],
        SlicingMethod::Z => seq![(i, j, k), (i + 1, j, k), (i + 1, j + 1, k), (i, j + 1, k)],
    };
    assert(q =~= corners);
    lemma_elements_refer_to_their_corners(dim_list, grid, plan);
}

/// Law: an edge walk makes its edges cell by cell in channel-a, channel-b,
/// channel-c order, and the edge of cell `(i, j, k)` runs from that cell one
/// step along the plan's slicing axis (to `(i+1, j, k)` for X, `(i, j+1, k)`
/// for Y, `(i, j, k+1)` for Z), its ends agreeing on the other two axes.
/// After a walk each edge refers to the registered vertices of those cells.
pub proof fn lemma_edges_follow_slicing(dim_list: DimensionList, grid: VertexGrid, plan: GridPlan, i: int, j: int, k: int)
    requires
        plan.dimensionality == Dimensionality::Edge,
        dim_list.holds(grid, plan, all_primitives(plan)),
        0 <= i && i + 1 < plan.len_a,
        0 <= j && j + 1 < plan.len_b,
        0 <= k && k + 1 < plan.len_c,
    ensures
        ({
            let n = (i * (plan.len_b - 1) + j) * (plan.len_c - 1) + k;
            let e = all_primitives(plan)[n];
            let far: (int, int, int) = match plan.face_slicing {
                SlicingMethod::X => (i + 1, j, k),
                SlicingMethod::Y => (i, j + 1, k),
                SlicingMethod::Z => (i, j, k + 1),
            };
            &&& 0 <= n < all_primitives(plan).len()
            &&& e == seq![(i, j, k), far]
            &&& dim_list.primitives_view()[n].len() == 2
            &&& dim_list.registry_view()[dim_list.primitives_view()[n][0]] == key_at(grid, (i, j, k))
            &&& dim_list.registry_view()[dim_list.primitives_view()[n][1]] == key_at(grid, far)
        }),
{
    let bb = plan.len_b - 1;
    let bc = plan.len_c - 1;
    let n = (i * bb + j) * bc + k;
    lemma_grid_len(plan, plan.len_a - 1);
    assert(n < (plan.len_a - 1) * (bb * bc)) by (nonlinear_arith)
        requires 0 <= i < plan.len_a - 1, 0 <= j < bb, 0 <= k < bc, n == (i * bb + j) * bc + k;
    lemma_grid_index(plan, plan.len_a - 1, i, j, k);
    let e = all_primitives(plan)[n];
    lemma_small_mod((i + 1) as nat, plan.len_a as nat);
    lemma_small_mod((j + 1) as nat, plan.len_b as nat);
    lemma_small_mod((k + 1) as nat, plan.len_c as nat);
    lemma_small_mod(i as nat, plan.len_a as nat);
    lemma_small_mod(j as nat, plan.len_b as nat);
    lemma_small_mod(k as nat, plan.len_c as nat);
    let far: (int, int, int) = match plan.face_slicing {
        SlicingMethod::X => (i + 1, j, k),
        SlicingMethod::Y => (i, j + 1, k),
        SlicingMethod::Z => (i, j, k + 1),
    };
    assert(e =~= seq![(i, j, k), far]);
    lemma_elements_refer_to_their_corners(dim_list, grid, plan);
    assert(e[0] == (i, j, k));
    assert(e[1] == far);
}

/// Law: a vertex walk visits every grid vertex once, and an edge or face walk
/// makes one element per cell that is not on a channel's last step.
pub proof fn lemma_element_count(plan: GridPlan)
    requires
        plan.dimensionality != Dimensionality::Volume,
    ensures
        plan.dimensionality == Dimensionality::Vertex ==>
            all_primitives(plan).len() == plan.len_a * (plan.len_b * plan.len_c),
        plan.dimensionality != Dimensionality::Vertex && plan.len_a > 0 && plan.len_b > 0 && plan.len_c > 0 ==>
            all_primitives(plan).len() == (plan.len_a - 1) * ((plan.len_b - 1) * (plan.len_c - 1)),
{
    lemma_grid_len(plan, bound(plan.dimensionality, plan.len_a as int));
}


/// The element at `n` of a concatenation.
proof fn lemma_concat_index<A>(a: Seq<A>, b: Seq<A>, n: int)
    requires
        0 <= n < a.len() + b.len(),
    ensures
        n < a.len() ==> (a + b)[n] == a[n],
        n >= a.len() ==> (a + b)[n] == b[n - a.len()],
{
}

/// An element made by cell `(i, j, k)`.
pub open spec fn made_by_cell(plan: GridPlan, p: Seq<(int, int, int)>, i: int, j: int, k: int) -> bool {
    exists|m: int| 0 <= m < cell_primitives(plan, i, j, k).len() && #[trigger] cell_primitives(plan, i, j, k)[m] == p
}

proof fn lemma_row_member(plan: GridPlan, i: int, j: int, k: int, n: int)
    requires
        0 <= n < row_primitives(plan, i, j, k).len(),
    ensures
        exists|kk: int| 0 <= kk < k && #[trigger] made_by_cell(plan, row_primitives(plan, i, j, k)[n], i, j, kk),
    decreases k,
{
    let prev = row_primitives(plan, i, j, k - 1);
    let cell = cell_primitives(plan, i, j, k - 1);
    lemma_concat_index(prev, cell, n);
    if n < prev.len() {
        lemma_row_member(plan, i, j, k - 1, n);
        let kk = choose|kk: int| 0 <= kk < k - 1 && #[trigger] made_by_cell(plan, prev[n], i, j, kk);
        assert(made_by_cell(plan, row_primitives(plan, i, j, k)[n], i, j, kk));
    } else {
        assert(cell[n - prev.len()] == row_primitives(plan, i, j, k)[n]);
        assert(made_by_cell(plan, row_primitives(plan, i, j, k)[n], i, j, k - 1));
    }
}

proof fn lemma_plane_member(plan: GridPlan, i: int, j: int, n: int)
    requires
        0 <= n < plane_primitives(plan, i, j).len(),
    ensures
        exists|jj: int, kk: int|
            0 <= jj < j && 0 <= kk < bound(plan.dimensionality, plan.len_c as int)
            && #[trigger] made_by_cell(plan, plane_primitives(plan, i, j)[n], i, jj, kk),
    decreases j,
{
    let bc = bound(plan.dimensionality, plan.len_c as int);
    let prev = plane_primitives(plan, i, j - 1);
    let row = row_primitives(plan, i, j - 1, bc);
    lemma_concat_index(prev, row, n);
    if n < prev.len() {
        lemma_plane_member(plan, i, j - 1, n);
        let (jj, kk) = choose|jj: int, kk: int| 0 <= jj < j - 1 && 0 <= kk < bc
            && #[trigger] made_by_cell(plan, prev[n], i, jj, kk);
        assert(made_by_cell(plan, plane_primitives(plan, i, j)[n], i, jj, kk));
    } else {
        lemma_row_member(plan, i, j - 1, bc, n - prev.len());
        let kk = choose|kk: int| 0 <= kk < bc && #[trigger] made_by_cell(plan, row[n - prev.len()], i, j - 1, kk);
        assert(made_by_cell(plan, plane_primitives(plan, i, j)[n], i, j - 1, kk));
    }
}

proof fn lemma_grid_member(plan: GridPlan, i: int, n: int)
    requires
        0 <= n < grid_primitives(plan, i).len(),
    ensures
        exists|ii: int, jj: int, kk: int|
            0 <= ii < i && 0 <= jj < bound(plan.dimensionality, plan.len_b as int)
            && 0 <= kk < bound(plan.dimensionality, plan.len_c as int)
            && #[trigger] made_by_cell(plan, grid_primitives(plan, i)[n], ii, jj, kk),
    decreases i,
{
    let bb = bound(plan.dimensionality, plan.len_b as int);
    let bc = bound(plan.dimensionality, plan.len_c as int);
    let prev = grid_primitives(plan, i - 1);
    let plane = plane_primitives(plan, i - 1, bb);
    lemma_concat_index(prev, plane, n);
    if n < prev.len() {
        lemma_grid_member(plan, i - 1, n);
        let (ii, jj, kk) = choose|ii: int, jj: int, kk: int| 0 <= ii < i - 1 && 0 <= jj < bb && 0 <= kk < bc
            && #[trigger] made_by_cell(plan, prev[n], ii, jj, kk);
        assert(made_by_cell(plan, grid_primitives(plan, i)[n], ii, jj, kk));
    } else {
        lemma_plane_member(plan, i - 1, bb, n - prev.len());
        let (jj, kk) = choose|jj: int, kk: int| 0 <= jj < bb && 0 <= kk < bc
            && #[trigger] made_by_cell(plan, plane[n - prev.len()], i - 1, jj, kk);
        assert(made_by_cell(plan, grid_primitives(plan, i)[n], i - 1, jj, kk));
    }
}

/// Law: every element of a walk is made by one of the cells the walk visits.
pub proof fn lemma_elements_come_from_cells(plan: GridPlan, n: int)
    requires
        0 <= n < all_primitives(plan).len(),
    ensures
        exists|i: int, j: int, k: int|
            cell_in_walk(plan, i, j, k) && #[trigger] made_by_cell(plan, all_primitives(plan)[n], i, j, k),
{
    lemma_grid_member(plan, bound(plan.dimensionality, plan.len_a as int), n);
    let (i, j, k) = choose|i: int, j: int, k: int|
        0 <= i < bound(plan.dimensionality, plan.len_a as int)
        && 0 <= j < bound(plan.dimensionality, plan.len_b as int)
        && 0 <= k < bound(plan.dimensionality, plan.len_c as int)
        && #[trigger] made_by_cell(plan, all_primitives(plan)[n], i, j, k);
    assert(cell_in_walk(plan, i, j, k));
}

/// Law: a volume is drawn only with quads whose cell lies on the first or
/// the next-to-last step of the channel the quad is flat in.
pub proof fn lemma_volume_quads_on_outer_layers(plan: GridPlan, n: int)
    requires
        plan.dimensionality == Dimensionality::Volume,
        0 <= n < all_primitives(plan).len(),
    ensures
        exists|i: int, j: int, k: int| #![trigger cell_in_walk(plan, i, j, k)]
            cell_in_walk(plan, i, j, k) && {
            ||| (all_primitives(plan)[n] == quad_at(plan, SlicingMethod::X, i, j, k) && (i == 0 || i == plan.len_a - 2))
            ||| (all_primitives(plan)[n] == quad_at(plan, SlicingMethod::Y, i, j, k) && (j == 0 || j == plan.len_b - 2))
            ||| (all_primitives(plan)[n] == quad_at(plan, SlicingMethod::Z, i, j, k) && (k == 0 || k == plan.len_c - 2))
        },
{
    lemma_elements_come_from_cells(plan, n);
    let (i, j, k) = choose|i: int, j: int, k: int|
        cell_in_walk(plan, i, j, k) && #[trigger] made_by_cell(plan, all_primitives(plan)[n], i, j, k);
    let p = all_primitives(plan)[n];
    let m = choose|m: int| 0 <= m < cell_primitives(plan, i, j, k).len() && #[trigger] cell_primitives(plan, i, j, k)[m] == p;
    let px: Seq<Seq<(int, int, int)>> =
        if i == 0 || i == plan.len_a - 2 { seq![quad_at(plan, SlicingMethod::X, i, j, k)] } else { seq![] };
    let py: Seq<Seq<(int, int, int)>> =
        if j == 0 || j == plan.len_b - 2 { seq![quad_at(plan, SlicingMethod::Y, i, j, k)] } else { seq![] };
    let pz: Seq<Seq<(int, int, int)>> =
        if k == 0 || k == plan.len_c - 2 { seq![quad_at(plan, SlicingMethod::Z, i, j, k)] } else { seq![] };
    assert(cell_primitives(plan, i, j, k) == px + py + pz);
    lemma_concat_index(px + py, pz, m);
    if m < px.len() + py.len() {
        lemma_concat_index(px, py, m);
    }
}


/// Whether step `x` of a channel of `l` steps is one where a volume draws a
/// side: the first step or the next-to-last one.
pub open spec fn on_volume_layer(x: int, l: int) -> int {
    if x == 0 || x == l - 2 { 1 } else { 0 }
}

/// How many of the first `n` steps of a channel of `l` steps draw a side.
pub open spec fn volume_layer_count(n: int, l: int) -> int
    decreases n,
{
    if n <= 0 { 0 } else { volume_layer_count(n - 1, l) + on_volume_layer(n - 1, l) }
}

proof fn lemma_volume_layer_count(n: int, l: int)
    requires
        0 <= n <= l - 1,
    ensures
        volume_layer_count(n, l) == (if n >= 1 { 1int } else { 0 }) + (if n >= l - 1 && l - 2 >= 1 { 1int } else { 0 }),
    decreases n,
{
    if n > 0 {
        lemma_volume_layer_count(n - 1, l);
    }
}

proof fn lemma_volume_cell_len(plan: GridPlan, i: int, j: int, k: int)
    requires
        plan.dimensionality == Dimensionality::Volume,
    ensures
        cell_primitives(plan, i, j, k).len() == on_volume_layer(i, plan.len_a as int)
            + on_volume_layer(j, plan.len_b as int) + on_volume_layer(k, plan.len_c as int),
{
}

proof fn lemma_volume_row_len(plan: GridPlan, i: int, j: int, k: int)
    requires
        plan.dimensionality == Dimensionality::Volume,
        k >= 0,
    ensures
        row_primitives(plan, i, j, k).len() == k * (on_volume_layer(i, plan.len_a as int)
            + on_volume_layer(j, plan.len_b as int)) + volume_layer_count(k, plan.len_c as int),
    decreases k,
{
    let s = on_volume_layer(i, plan.len_a as int) + on_volume_layer(j, plan.len_b as int);
    if k > 0 {
        lemma_volume_row_len(plan, i, j, k - 1);
        lemma_volume_cell_len(plan, i, j, k - 1);
        assert((k - 1) * s + s == k * s) by (nonlinear_arith);
    } else {
        assert(0 * s == 0);
    }
}

proof fn lemma_volume_plane_len(plan: GridPlan, i: int, j: int)
    requires
        plan.dimensionality == Dimensionality::Volume,
        j >= 0,
    ensures
        ({
            let bc = bound(plan.dimensionality, plan.len_c as int);
            let oi = on_volume_layer(i, plan.len_a as int);
            plane_primitives(plan, i, j).len() == j * (bc * oi) + volume_layer_count(j, plan.len_b as int) * bc
                + j * volume_layer_count(bc, plan.len_c as int)
        }),
    decreases j,
{
    let bc = bound(plan.dimensionality, plan.len_c as int);
    let oi = on_volume_layer(i, plan.len_a as int);
    let oj = on_volume_layer(j - 1, plan.len_b as int);
    let lc = volume_layer_count(bc, plan.len_c as int);
    if j > 0 {
        lemma_volume_plane_len(plan, i, j - 1);
        lemma_volume_row_len(plan, i, j - 1, bc);
        let lb0 = volume_layer_count(j - 1, plan.len_b as int);
        assert((j - 1) * (bc * oi) + lb0 * bc + (j - 1) * lc + (bc * (oi + oj) + lc)
            == j * (bc * oi) + (lb0 + oj) * bc + j * lc) by (nonlinear_arith);
    } else {
        assert(0 * (bc * oi) == 0);
        assert(0 * bc == 0);
        assert(0 * lc == 0);
    }
}

proof fn lemma_volume_grid_len(plan: GridPlan, i: int)
    requires
        plan.dimensionality == Dimensionality::Volume,
        i >= 0,
    ensures
        ({
            let bb = bound(plan.dimensionality, plan.len_b as int);
            let bc = bound(plan.dimensionality, plan.len_c as int);
            grid_primitives(plan, i).len() == volume_layer_count(i, plan.len_a as int) * (bb * bc)
                + i * (volume_layer_count(bb, plan.len_b as int) * bc)
                + i * (bb * volume_layer_count(bc, plan.len_c as int))
        }),
    decreases i,
{
    let bb = bound(plan.dimensionality, plan.len_b as int);
    let bc = bound(plan.dimensionality, plan.len_c as int);
    let lb = volume_layer_count(bb, plan.len_b as int);
    let lc = volume_layer_count(bc, plan.len_c as int);
    if i > 0 {
        lemma_volume_grid_len(plan, i - 1);
        lemma_volume_plane_len(plan, i - 1, bb);
        let la0 = volume_layer_count(i - 1, plan.len_a as int);
        let oi = on_volume_layer(i - 1, plan.len_a as int);
        assert(la0 * (bb * bc) + (i - 1) * (lb * bc) + (i - 1) * (bb * lc) + (bb * (bc * oi) + lb * bc + bb * lc)
            == (la0 + oi) * (bb * bc) + i * (lb * bc) + i * (bb * lc)) by (nonlinear_arith);
    } else {
        assert(0 * (bb * bc) == 0);
        assert(0 * (lb * bc) == 0);
        assert(0 * (bb * lc) == 0);
    }
}

/// The smaller of `x` and 2: how many of a channel's `x` cells hold a side of
/// a volume.
pub open spec fn at_most_two(x: int) -> int {
    if x < 2 { x } else { 2 }
}

/// Law: a volume walk over a grid with `a`, `b`, `c` cells per channel (one
/// fewer than the channel's steps) makes `m(a)·b·c + a·m(b)·c + a·b·m(c)`
/// quads, with `m(x)` the smaller of `x` and 2.
pub proof fn lemma_volume_element_count(plan: GridPlan)
    requires
        plan.dimensionality == Dimensionality::Volume,
    ensures
        ({
            let a = bound(plan.dimensionality, plan.len_a as int);
            let b = bound(plan.dimensionality, plan.len_b as int);
            let c = bound(plan.dimensionality, plan.len_c as int);
            all_primitives(plan).len() == at_most_two(a) * (b * c) + a * (at_most_two(b) * c) + a * (b * at_most_two(c))
        }),
{
    let a = bound(plan.dimensionality, plan.len_a as int);
    let b = bound(plan.dimensionality, plan.len_b as int);
    let c = bound(plan.dimensionality, plan.len_c as int);
    lemma_volume_grid_len(plan, a);
    if plan.len_a > 0 {
        lemma_volume_layer_count(a, plan.len_a as int);
    }
    if plan.len_b > 0 {
        lemma_volume_layer_count(b, plan.len_b as int);
    }
    if plan.len_c > 0 {
        lemma_volume_layer_count(c, plan.len_c as int);
    }
}

} // verus!
