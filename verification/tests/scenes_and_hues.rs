use prismatic_visualizer::hues::{generate_hues, tile_triangle_corners, HueName};
use prismatic_visualizer::scenes::{TwoDimSceneConfig, VisualizerScene};

#[test]
fn scenes_cycle_in_order_and_wrap_around() {
    let mut cfg = TwoDimSceneConfig::new();
    assert_eq!(cfg.pos(), 0);
    assert_eq!(cfg.current_scene(), VisualizerScene::HueWheel);
    cfg.advance();
    assert_eq!(cfg.pos(), 1);
    assert_eq!(cfg.current_scene(), VisualizerScene::ColorPeaks);
    cfg.advance();
    assert_eq!(cfg.current_scene(), VisualizerScene::Gradients);
    cfg.advance();
    assert_eq!(cfg.pos(), 0);
    assert_eq!(cfg.current_scene(), VisualizerScene::HueWheel);
}

#[test]
fn hue_rings_double_and_refine() {
    let rings = generate_hues();
    let sizes: Vec<usize> = rings.iter().map(|r| r.len()).collect();
    assert_eq!(sizes, vec![1, 3, 6, 12, 24]);
    assert_eq!(rings[0], vec![HueName::White]);
    assert_eq!(rings[1], vec![HueName::Red, HueName::Green, HueName::Blue]);
    for k in 1..4 {
        for i in 0..rings[k].len() {
            assert_eq!(rings[k + 1][2 * i], rings[k][i]);
        }
    }
    assert_eq!(rings[4][23], HueName::Ruby);
    assert_eq!(rings[3][11], HueName::Rose);
}

#[test]
fn tile_triangles_go_round_the_tile() {
    assert_eq!(tile_triangle_corners(0), (0, 1));
    assert_eq!(tile_triangle_corners(2), (2, 3));
    assert_eq!(tile_triangle_corners(3), (3, 0));
}
