use prismatic_visualizer::dimension::{generate_dimension_lists, DimensionList, GridPlan, VertexGrid};
use prismatic_visualizer::geometry::{wrap_index, Dimensionality, SlicingMethod};
use prismatic_visualizer::lists::VertexCollection;
use prismatic_visualizer::registry::VertexKey;
use prismatic_visualizer::vertex::VertexObject;

fn cell_vertex(i: usize, j: usize, k: usize) -> VertexObject {
    VertexObject::new([i as u32 + 1, j as u32 + 1, k as u32 + 1], [7, 7, 7, 7])
}

fn grid(la: usize, lb: usize, lc: usize) -> VertexGrid {
    (0..la).map(|i| (0..lb).map(|j| (0..lc).map(|k| cell_vertex(i, j, k)).collect()).collect()).collect()
}

fn key(i: usize, j: usize, k: usize) -> VertexKey {
    cell_vertex(i, j, k).key()
}

fn plan(d: Dimensionality, s: SlicingMethod, la: usize, lb: usize, lc: usize) -> GridPlan {
    GridPlan { dimensionality: d, face_slicing: s, len_a: la, len_b: lb, len_c: lc }
}

fn keys_of(list: &DimensionList) -> Vec<VertexKey> {
    match list {
        DimensionList::Vertex(l) => l.iter().iter().map(|v| v.key()).collect(),
        DimensionList::Edge(l) => l.vertex_registry().keys(),
        DimensionList::Face(l) => l.vertex_registry().keys(),
        DimensionList::Volume(l) => l.vertex_registry().keys(),
    }
}

#[test]
fn face_offsets_of_each_slicing() {
    assert_eq!(SlicingMethod::X.get_face_offsets(), [[0, 0, 0], [0, 1, 0], [0, 1, 1], [0, 0, 1]]);
    assert_eq!(SlicingMethod::Y.get_face_offsets(), [[0, 0, 0], [1, 0, 0], [1, 0, 1], [0, 0, 1]]);
    assert_eq!(SlicingMethod::Z.get_face_offsets(), [[0, 0, 0], [1, 0, 0], [1, 1, 0], [0, 1, 0]]);
}

#[test]
fn edge_and_vertex_offsets_of_each_slicing() {
    assert_eq!(SlicingMethod::X.get_edge_offsets(), [[0, 0, 0], [1, 0, 0]]);
    assert_eq!(SlicingMethod::Y.get_edge_offsets(), [[0, 0, 0], [0, 1, 0]]);
    assert_eq!(SlicingMethod::Z.get_edge_offsets(), [[0, 0, 0], [0, 0, 1]]);
    assert_eq!(SlicingMethod::Y.get_vertex_offset(), [[0, 0, 0]]);
}

#[test]
fn edges_are_normal_to_faces_of_the_same_slicing() {
    for (axis, s) in [SlicingMethod::X, SlicingMethod::Y, SlicingMethod::Z].iter().enumerate() {
        let e = s.get_edge_offsets();
        assert_eq!(e[1][axis], 1);
        for f in s.get_face_offsets().iter() {
            assert_eq!(f[axis], 0);
        }
    }
}

#[test]
fn wrap_index_wraps_around_the_length() {
    assert_eq!(wrap_index(2, 1, 4), 3);
    assert_eq!(wrap_index(3, 1, 4), 0);
    assert_eq!(wrap_index(0, 0, 1), 0);
    assert_eq!(wrap_index(5, 0, 4), 1);
}

#[test]
fn vertex_walk_registers_every_grid_vertex_in_order() {
    let g = grid(2, 3, 4);
    let list = generate_dimension_lists(&g, &plan(Dimensionality::Vertex, SlicingMethod::X, 2, 3, 4));
    assert!(matches!(list, DimensionList::Vertex(_)));
    let mut expected = Vec::new();
    for i in 0..2 {
        for j in 0..3 {
            for k in 0..4 {
                expected.push(key(i, j, k));
            }
        }
    }
    assert_eq!(keys_of(&list), expected);
}

#[test]
fn edge_walk_steps_along_the_slicing_axis() {
    let g = grid(3, 3, 3);
    let list = generate_dimension_lists(&g, &plan(Dimensionality::Edge, SlicingMethod::X, 3, 3, 3));
    let reg = keys_of(&list);
    let edges = match &list {
        DimensionList::Edge(l) => l.edges(),
        _ => panic!("expected an edge list"),
    };
    assert_eq!(edges.len(), 8);
    let mut n = 0;
    for i in 0..2 {
        for j in 0..2 {
            for k in 0..2 {
                let (a, b) = edges[n];
                assert_eq!(reg[a], key(i, j, k));
                assert_eq!(reg[b], key(i + 1, j, k));
                n += 1;
            }
        }
    }
    assert_eq!(&reg[0..2], &[key(0, 0, 0), key(1, 0, 0)]);
}

#[test]
fn face_walk_makes_one_quad_per_inner_cell() {
    let g = grid(3, 2, 4);
    let list = generate_dimension_lists(&g, &plan(Dimensionality::Face, SlicingMethod::Z, 3, 2, 4));
    let reg = keys_of(&list);
    let faces = match &list {
        DimensionList::Face(l) => l.faces(),
        _ => panic!("expected a face list"),
    };
    assert_eq!(faces.len(), 2 * 1 * 3);
    let (a, b, c, d) = faces[0];
    assert_eq!([reg[a], reg[b], reg[c], reg[d]], [key(0, 0, 0), key(1, 0, 0), key(1, 1, 0), key(0, 1, 0)]);
    let (a, b, c, d) = faces[5];
    assert_eq!([reg[a], reg[b], reg[c], reg[d]], [key(1, 0, 2), key(2, 0, 2), key(2, 1, 2), key(1, 1, 2)]);
}

#[test]
fn volume_walk_covers_only_the_outer_layers() {
    let g = grid(4, 4, 4);
    let list = generate_dimension_lists(&g, &plan(Dimensionality::Volume, SlicingMethod::Y, 4, 4, 4));
    let faces = match &list {
        DimensionList::Volume(l) => l.faces(),
        _ => panic!("expected a volume list"),
    };
    // Cells (i, j, k) in 0..3; a side is drawn where the index is 0 or 2.
    assert_eq!(faces.len(), 3 * (2 * 3 * 3));
    let reg = keys_of(&list);
    assert!(!reg.contains(&key(1, 1, 1)));
    assert!(reg.contains(&key(0, 0, 0)));
    assert!(reg.contains(&key(2, 3, 2)));
    let g3 = grid(3, 3, 3);
    let small = generate_dimension_lists(&g3, &plan(Dimensionality::Volume, SlicingMethod::Y, 3, 3, 3));
    match &small {
        DimensionList::Volume(l) => assert_eq!(l.faces().len(), 8 * 3),
        _ => panic!("expected a volume list"),
    }
}

#[test]
fn equal_vertices_are_registered_once() {
    let same = VertexObject::new([1, 2, 3], [4, 5, 6, 7]);
    let g: VertexGrid = vec![vec![vec![same; 2]; 2]; 2];
    let list = generate_dimension_lists(&g, &plan(Dimensionality::Edge, SlicingMethod::Z, 2, 2, 2));
    match &list {
        DimensionList::Edge(l) => {
            assert_eq!(l.edges(), vec![(0, 0)]);
            assert_eq!(l.vertex_registry().keys(), vec![same.key()]);
        },
        _ => panic!("expected an edge list"),
    }
}

#[test]
fn volume_quad_counts() {
    // m(a)·b·c + a·m(b)·c + a·b·m(c) with a, b, c the cells per channel.
    let cases = [(2, 2, 2, 3), (3, 3, 3, 24), (4, 4, 4, 54), (5, 2, 3, 2 * 1 * 2 + 4 * 1 * 2 + 4 * 1 * 2), (2, 5, 4, 1 * 4 * 3 + 1 * 2 * 3 + 1 * 4 * 2)];
    for &(la, lb, lc, expected) in cases.iter() {
        let list = generate_dimension_lists(&grid(la, lb, lc), &plan(Dimensionality::Volume, SlicingMethod::X, la, lb, lc));
        match &list {
            DimensionList::Volume(l) => assert_eq!(l.faces().len(), expected),
            _ => panic!("expected a volume list"),
        }
    }
}

#[test]
fn walk_keeps_first_met_vertex_of_equal_keys() {
    let first = VertexObject::new([(-0.0f32).to_bits(), 0, 0], [0, 0, 0, 0]);
    let later = VertexObject::new([0.0f32.to_bits(), 0, 0], [0, 0, 0, 0]);
    let g: VertexGrid = vec![vec![vec![first, later]]];
    let list = generate_dimension_lists(&g, &plan(Dimensionality::Vertex, SlicingMethod::X, 1, 1, 2));
    match &list {
        DimensionList::Vertex(l) => {
            let vs = l.iter();
            assert_eq!(vs.len(), 1);
            assert_eq!(vs[0].point, first.point);
        },
        _ => panic!("expected a vertex list"),
    }
}

#[test]
fn empty_and_single_step_grids_make_no_elements() {
    let list = generate_dimension_lists(&grid(0, 0, 0), &plan(Dimensionality::Vertex, SlicingMethod::X, 0, 0, 0));
    assert!(keys_of(&list).is_empty());
    let list = generate_dimension_lists(&grid(1, 3, 3), &plan(Dimensionality::Face, SlicingMethod::X, 1, 3, 3));
    match &list {
        DimensionList::Face(l) => assert!(l.faces().is_empty()),
        _ => panic!("expected a face list"),
    }
}
