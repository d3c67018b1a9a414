use prismatic_visualizer::mesh::{quad_color_corner, quad_triangle_indices};

#[test]
fn quads_split_into_two_triangles() {
    assert_eq!(quad_triangle_indices(0), [0, 1, 2, 0, 2, 3]);
    assert_eq!(quad_triangle_indices(8), [8, 9, 10, 8, 10, 11]);
    assert_eq!(quad_triangle_indices(u32::MAX - 3), [u32::MAX - 3, u32::MAX - 2, u32::MAX - 1, u32::MAX - 3, u32::MAX - 1, u32::MAX]);
}

#[test]
fn discrete_colors_take_the_first_corner() {
    assert_eq!(quad_color_corner(true, 3), 0);
    assert_eq!(quad_color_corner(false, 3), 3);
    assert_eq!(quad_color_corner(false, 0), 0);
}
