use prismatic_visualizer::lists::{EdgeList, FaceList, VertexCollection, VertexList};
use prismatic_visualizer::registry::{VertexKey, VertexRegistry};
use prismatic_visualizer::vertex::{canonical_float_bits, VertexObject};

fn vertex(x: f32, y: f32, z: f32) -> VertexObject {
    VertexObject::new([x.to_bits(), y.to_bits(), z.to_bits()], [1.0f32.to_bits(), 0, 0, 1.0f32.to_bits()])
}

fn object(i: u32) -> VertexObject {
    VertexObject::new([i, 0, 0], [0, 0, 0, 0])
}

#[test]
fn registry_starts_empty() {
    let reg = VertexRegistry::new();
    assert_eq!(reg.len(), 0);
    assert!(reg.get_index(0).is_none());
    assert!(reg.keys().is_empty());
    assert!(reg.vertices().is_empty());
    assert_eq!(reg.get(&(1, 2, 3, 4, 5, 6, 7)), None);
}

#[test]
fn registry_registers_each_key_once_in_first_use_order() {
    let (v1, v2, v3) = (object(1), object(2), object(3));
    let k1: VertexKey = v1.key();
    let k2: VertexKey = v2.key();
    let k3: VertexKey = v3.key();
    let mut reg = VertexRegistry::new();
    assert_eq!(reg.get_or_insert_index(&v1), 0);
    assert_eq!(reg.get_or_insert_index(&v2), 1);
    assert_eq!(reg.get_or_insert_index(&v1), 0);
    assert_eq!(reg.get_or_insert_index(&v2), 1);
    assert_eq!(reg.len(), 2);
    assert_eq!(reg.keys(), vec![k1, k2]);
    assert_eq!(reg.get(&k1), Some(0));
    assert_eq!(reg.get(&k2), Some(1));
    assert_eq!(reg.get(&k3), None);
    assert_eq!(reg.get_index(1).map(|v| v.key()), Some(k2));
    assert!(reg.get_index(2).is_none());
    assert_eq!(reg.get_or_insert_index(&v3), 2);
    assert_eq!(reg.get_index(2).map(|v| v.point), Some([3, 0, 0]));
}

#[test]
fn registry_keeps_the_first_of_equal_vertices() {
    let neg = VertexObject::new([(-0.0f32).to_bits(), 0, 0], [0, 0, 0, 0]);
    let pos = VertexObject::new([0.0f32.to_bits(), 0, 0], [0, 0, 0, 0]);
    let mut reg = VertexRegistry::new();
    assert_eq!(reg.get_or_insert_index(&neg), 0);
    assert_eq!(reg.get_or_insert_index(&pos), 0);
    assert_eq!(reg.len(), 1);
    assert_eq!(reg.vertices()[0].point, [(-0.0f32).to_bits(), 0, 0]);
    let nan = VertexObject::new([0xffc0_1234, 0, 0], [0, 0, 0, 0]);
    let other_nan = VertexObject::new([0x7fc0_0000, 0, 0], [0, 0, 0, 0]);
    assert_eq!(reg.get_or_insert_index(&nan), 1);
    assert_eq!(reg.get_or_insert_index(&other_nan), 1);
    assert_eq!(reg.get_index(1).map(|v| v.point), Some([0xffc0_1234, 0, 0]));
}

#[test]
fn canonical_bits_fold_zeros_and_nans() {
    assert_eq!(canonical_float_bits((-0.0f32).to_bits()), 0);
    assert_eq!(canonical_float_bits(0.0f32.to_bits()), 0);
    assert_eq!(canonical_float_bits(f32::NAN.to_bits()), 0x7fc0_0000);
    assert_eq!(canonical_float_bits(0x7f80_0001), 0x7fc0_0000);
    assert_eq!(canonical_float_bits(0xffc0_1234), 0x7fc0_0000);
    assert_eq!(canonical_float_bits(1.5f32.to_bits()), 1.5f32.to_bits());
    assert_eq!(canonical_float_bits(f32::INFINITY.to_bits()), f32::INFINITY.to_bits());
    assert_eq!(canonical_float_bits(f32::NEG_INFINITY.to_bits()), f32::NEG_INFINITY.to_bits());
    assert_eq!(canonical_float_bits((-2.0f32).to_bits()), (-2.0f32).to_bits());
}

#[test]
fn vertex_keys_follow_ordered_float_equality() {
    assert_eq!(vertex(0.0, 1.0, 2.0).key(), vertex(-0.0, 1.0, 2.0).key());
    let nan_a = f32::from_bits(0x7fc0_0000);
    let nan_b = f32::from_bits(0xffc0_0001);
    assert_eq!(vertex(nan_a, 0.5, 0.5).key(), vertex(nan_b, 0.5, 0.5).key());
    assert_ne!(vertex(0.25, 0.5, 0.5).key(), vertex(0.5, 0.5, 0.5).key());
    assert_ne!(vertex(nan_a, 0.5, 0.5).key(), vertex(0.5, 0.5, 0.5).key());
    let v = vertex(0.25, -1.0, 3.0);
    assert_eq!(v.key(), (0.25f32.to_bits(), (-1.0f32).to_bits(), 3.0f32.to_bits(), 1.0f32.to_bits(), 0, 0, 1.0f32.to_bits()));
}

#[test]
fn vertex_list_adds_each_vertex_once() {
    let mut list = VertexList::new();
    assert_eq!(list.add_vertex(&vertex(0.0, 0.0, 0.0)), 0);
    assert_eq!(list.add_vertex(&vertex(1.0, 0.0, 0.0)), 1);
    assert_eq!(list.add_vertex(&vertex(-0.0, 0.0, 0.0)), 0);
    assert_eq!(list.get_or_insert_index(&vertex(1.0, 0.0, 0.0)), 1);
    let keys: Vec<VertexKey> = list.iter().iter().map(|v| v.key()).collect();
    assert_eq!(keys, vec![vertex(0.0, 0.0, 0.0).key(), vertex(1.0, 0.0, 0.0).key()]);
    assert_eq!(list.iter()[0].point, [0.0f32.to_bits(), 0, 0]);
    assert_eq!(list.vertex_registry().len(), 2);
}

#[test]
fn edge_list_shares_vertices_between_edges() {
    let mut list = EdgeList::new();
    let a = vertex(0.0, 0.0, 0.0);
    let b = vertex(1.0, 0.0, 0.0);
    let c = vertex(2.0, 0.0, 0.0);
    assert_eq!(list.add_edge(a, b), 0);
    assert_eq!(list.add_edge(b, c), 1);
    assert_eq!(list.add_edge(c, a), 2);
    assert_eq!(list.edges(), vec![(0, 1), (1, 2), (2, 0)]);
    assert_eq!(list.vertex_registry().keys(), vec![a.key(), b.key(), c.key()]);
}

#[test]
fn face_list_shares_vertices_between_quads() {
    let mut list = FaceList::new();
    let p: Vec<VertexObject> = (0..6).map(|i| vertex(i as f32, 0.0, 0.0)).collect();
    assert_eq!(list.add_quad(p[0], p[1], p[2], p[3]), 0);
    assert_eq!(list.add_quad(p[1], p[4], p[5], p[2]), 1);
    assert_eq!(list.faces(), vec![(0, 1, 2, 3), (1, 4, 5, 2)]);
    assert_eq!(list.vertex_registry().len(), 6);
    let mut same = FaceList::new();
    assert_eq!(same.add_quad(p[0], p[0], p[0], p[0]), 0);
    assert_eq!(same.faces(), vec![(0, 0, 0, 0)]);
    assert_eq!(same.vertex_registry().len(), 1);
}
