//! Where the settings panel, the 3D view and the 2D view sit in the window.

use vstd::prelude::*;

use crate::settings::ViewportState;

verus! {

/// A camera viewport in physical pixels.
#[derive(Debug, Clone, Copy, PartialEq, Eq, Structural)]
pub struct ViewportRect {
    pub position_x: u32,
    pub position_y: u32,
    pub size_x: u32,
    pub size_y: u32,
}

/// The three viewports of the window: settings panel, 3D view and 2D view.
#[derive(Debug, Clone, Copy, PartialEq, Eq, Structural)]
pub struct ViewportLayout {
    pub ui: ViewportRect,
    pub three_dim: ViewportRect,
    pub two_dim: ViewportRect,
}

/// The viewports at start-up: the settings panel takes the top fifth of the
/// window, the 3D view the rest, and the 2D view starts with no width.
pub open spec fn initial_layout_spec(window_width: u32, window_height: u32) -> ViewportLayout {
    let ui_height = window_height / 5;
    ViewportLayout {
        ui: ViewportRect { position_x: 0, position_y: 0, size_x: window_width, size_y: ui_height },
        three_dim: ViewportRect {
            position_x: 0,
            position_y: ui_height,
            size_x: window_width,
            size_y: (window_height - ui_height) as u32,
        },
        two_dim: ViewportRect {
            position_x: 0,
            position_y: ui_height,
            size_x: 0,
            size_y: (window_height - ui_height) as u32,
        },
    }
}

/// The 3D and 2D viewports after the display mode or the window width
/// changed: only horizontal placement changes. The 3D view takes the whole
/// width, none of it, or the left half; the 2D view takes none of it, the
/// whole width from the left edge, or the right half.
pub open spec fn updated_viewports_spec(
    state: ViewportState,
    window_width: u32,
    three_dim: ViewportRect,
    two_dim: ViewportRect,
) -> (ViewportRect, ViewportRect) {
    (
        ViewportRect {
            size_x: match state {
                ViewportState::ThreeDimOnly => window_width,
                ViewportState::TwoDimOnly => 0,
                ViewportState::SplitDim => window_width / 2,
            },
            ..three_dim
        },
        match state {
            ViewportState::ThreeDimOnly => ViewportRect { size_x: 0, ..two_dim },
            ViewportState::TwoDimOnly => ViewportRect { position_x: 0, size_x: window_width, ..two_dim },
            ViewportState::SplitDim => ViewportRect {
                position_x: window_width / 2,
                size_x: window_width / 2,
                ..two_dim
            },
        },
    )
}

/// The viewports at start-up.
pub fn initial_layout(window_width: u32, window_height: u32) -> (r: ViewportLayout)
    ensures
        r == initial_layout_spec(window_width, window_height),
{
    let ui_height: u32 = window_height / 5;
    ViewportLayout {
        ui: ViewportRect { position_x: 0, position_y: 0, size_x: window_width, size_y: ui_height },
        three_dim: ViewportRect {
            position_x: 0,
            position_y: ui_height,
            size_x: window_width,
            size_y: window_height - ui_height,
        },
        two_dim: ViewportRect {
            position_x: 0,
            position_y: ui_height,
            size_x: 0,
            size_y: window_height - ui_height,
        },
    }
}

/// The 3D and 2D viewports after the display mode or the window width changed.
pub fn update_viewports(
    state: ViewportState,
    window_width: u32,
    three_dim: ViewportRect,
    two_dim: ViewportRect,
) -> (r: (ViewportRect, ViewportRect))
    ensures
        r == updated_viewports_spec(state, window_width, three_dim, two_dim),
{
    let mut three = three_dim;
    match state {
        ViewportState::ThreeDimOnly => {
            three.size_x = window_width;
        },
        ViewportState::TwoDimOnly => {
            three.size_x = 0;
        },
        ViewportState::SplitDim => {
            three.size_x = window_width / 2;
        },
    }
    let mut two = two_dim;
    match state {
        ViewportState::ThreeDimOnly => {
            two.size_x = 0;
        },
        ViewportState::TwoDimOnly => {
            two.position_x = 0;
            two.size_x = window_width;
        },
        ViewportState::SplitDim => {
            two.position_x = window_width / 2;
            two.size_x = window_width / 2;
        },
    }
    (three, two)
}

/// Which visualizations are rebuilt when the settings change: the 3D one
/// unless only the 2D view is shown, and the 2D one unless only the 3D view
/// is shown.
pub fn views_to_spawn(state: ViewportState) -> (r: (bool, bool))
    ensures
        r.0 == (state != ViewportState::TwoDimOnly),
        r.1 == (state != ViewportState::ThreeDimOnly),
        r.0 || r.1,
{
    match state {
        ViewportState::ThreeDimOnly => (true, false),
        ViewportState::TwoDimOnly => (false, true),
        ViewportState::SplitDim => (true, true),
    }
}

/// Law: starting from the start-up layout, in every display mode and for
/// every new window width, the panel sits above the views and together they
/// fill the window's height; the shown views sit side by side without
/// overlapping, and together they cover the window's width but for at most
/// one pixel (an odd width split in halves).
pub proof fn lemma_layout_tiles_window(state: ViewportState, width: u32, height: u32, new_width: u32)
    ensures
        ({
            let l = initial_layout_spec(width, height);
            let (three, two) = updated_viewports_spec(state, new_width, l.three_dim, l.two_dim);
            &&& l.ui.size_y + three.size_y == height
            &&& l.ui.size_y + two.size_y == height
            &&& three.position_y == l.ui.size_y && two.position_y == l.ui.size_y
            &&& three.position_x == 0
            &&& (three.size_x == 0 || two.size_x == 0 || three.position_x + three.size_x <= two.position_x)
            &&& new_width - 1 <= three.size_x + two.size_x <= new_width
        }),
{
}

/// Law: whatever viewports come in (with the 3D view at the left edge, where
/// it always stays), the update leaves the vertical placement alone, hides the
/// view the mode does not show by giving it no width, keeps every shown view
/// inside the window's width, starts the 2D view at the left edge when it is
/// shown alone, and splits the window with the 3D view left of the 2D view.
pub proof fn lemma_update_keeps_views_in_window(
    state: ViewportState,
    window_width: u32,
    three_dim: ViewportRect,
    two_dim: ViewportRect,
)
    requires
        three_dim.position_x == 0,
    ensures
        ({
            let (three, two) = updated_viewports_spec(state, window_width, three_dim, two_dim);
            &&& three.position_y == three_dim.position_y && three.size_y == three_dim.size_y
            &&& two.position_y == two_dim.position_y && two.size_y == two_dim.size_y
            &&& three.position_x == 0
            &&& three.position_x + three.size_x <= window_width
            &&& (two.size_x > 0 ==> two.position_x + two.size_x <= window_width)
            &&& (state == ViewportState::ThreeDimOnly ==> three.size_x == window_width && two.size_x == 0)
            &&& (state == ViewportState::TwoDimOnly ==>
                    three.size_x == 0 && two.position_x == 0 && two.size_x == window_width)
            &&& (state == ViewportState::SplitDim ==>
                    three.position_x + three.size_x <= two.position_x
                    && window_width <= two.position_x + two.size_x + 1
                    && window_width <= three.size_x + two.size_x + 1)
        }),
{
}

} // verus!
