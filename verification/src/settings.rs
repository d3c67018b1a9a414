//! The settings pages, which pages each display mode offers, and their headings.

use vstd::prelude::*;

verus! {

/// A settings page with a heading.
pub trait Setting {
    /// The heading shown for the page.
    fn heading(&self) -> &'static str;
}

/// Which views are shown.
#[derive(Debug, Clone, Copy, PartialEq, Eq, Structural)]
pub enum ViewportState {
    ThreeDimOnly,
    TwoDimOnly,
    SplitDim,
}

impl Default for ViewportState {
    fn default() -> (r: Self)
        ensures
            r == ViewportState::ThreeDimOnly,
    {
        ViewportState::ThreeDimOnly
    }
}

/// A settings page.
#[derive(Debug, Clone, Copy, PartialEq, Eq, Structural)]
pub enum SettingsOption {
    Grid,
    Offset,
    Channels,
    Model,
    Dim,
    Gradient,
    Picker,
    Controls,
    Attr,
}

/// Pages that only concern the 3D view.
pub fn three_dim_settings() -> (r: Vec<SettingsOption>)
    ensures
        r@ == seq![SettingsOption::Grid, SettingsOption::Dim],
{
    let mut r: Vec<SettingsOption> = Vec::new();
    r.push(SettingsOption::Grid);
    r.push(SettingsOption::Dim);
    r
}

/// Pages that only concern the 2D view.
pub fn two_dim_settings() -> (r: Vec<SettingsOption>)
    ensures
        r@ == seq![SettingsOption::Gradient, SettingsOption::Picker],
{
    let mut r: Vec<SettingsOption> = Vec::new();
    r.push(SettingsOption::Gradient);
    r.push(SettingsOption::Picker);
    r
}

/// Pages that concern both views.
pub fn shared_settings() -> (r: Vec<SettingsOption>)
    ensures
        r@ == seq![SettingsOption::Offset, SettingsOption::Channels, SettingsOption::Model],
{
    let mut r: Vec<SettingsOption> = Vec::new();
    r.push(SettingsOption::Offset);
    r.push(SettingsOption::Channels);
    r.push(SettingsOption::Model);
    r
}

/// Pages shown in the bottom bar.
pub fn bottom_settings() -> (r: Vec<SettingsOption>)
    ensures
        r@ == seq![SettingsOption::Controls, SettingsOption::Attr],
{
    let mut r: Vec<SettingsOption> = Vec::new();
    r.push(SettingsOption::Controls);
    r.push(SettingsOption::Attr);
    r
}

/// The pages the ribbon offers in a display mode, in ribbon order.
pub open spec fn ribbon_spec(state: ViewportState) -> Seq<SettingsOption> {
    match state {
        ViewportState::ThreeDimOnly => seq![SettingsOption::Grid, SettingsOption::Dim]
            + seq![SettingsOption::Offset, SettingsOption::Channels, SettingsOption::Model],
        ViewportState::TwoDimOnly => seq![SettingsOption::Offset, SettingsOption::Channels, SettingsOption::Model]
            + seq![SettingsOption::Gradient, SettingsOption::Picker],
        ViewportState::SplitDim => seq![SettingsOption::Grid, SettingsOption::Dim]
            + seq![SettingsOption::Offset, SettingsOption::Channels, SettingsOption::Model]
            + seq![SettingsOption::Gradient, SettingsOption::Picker],
    }
}

/// Appends the options of `more` to `options`.
fn append_options(options: &mut Vec<SettingsOption>, more: Vec<SettingsOption>)
    ensures
        final(options)@ == old(options)@ + more@,
{
    let mut i: usize = 0;
    while i < more.len()
        invariant
            i <= more@.len(),
            options@ == old(options)@ + more@.take(i as int),
        decreases more@.len() - i,
    {
        options.push(more[i]);
        assert(more@.take(i + 1) =~= more@.take(i as int).push(more@[i as int]));
        i = i + 1;
    }
    assert(more@.take(i as int) =~= more@);
}

/// The pages the ribbon offers in a display mode: the 3D pages, then the
/// shared ones, then the 2D pages, each group only when its view is shown.
pub fn settings_ribbon_options(state: ViewportState) -> (r: Vec<SettingsOption>)
    ensures
        r@ == ribbon_spec(state),
{
    match state {
        ViewportState::ThreeDimOnly => {
            let mut r = three_dim_settings();
            append_options(&mut r, shared_settings());
            r
        },
        ViewportState::TwoDimOnly => {
            let mut r = shared_settings();
            append_options(&mut r, two_dim_settings());
            r
        },
        ViewportState::SplitDim => {
            let mut r = three_dim_settings();
            append_options(&mut r, shared_settings());
            append_options(&mut r, two_dim_settings());
            r
        },
    }
}

/// Law: in every display mode the ribbon offers no page twice and never a
/// bottom-bar page; in the split mode the ribbon and the bottom bar together
/// offer every page, and each mode's ribbon holds exactly the pages of the
/// split ribbon that concern a shown view.
pub proof fn lemma_ribbon_options(state: ViewportState, option: SettingsOption)
    ensures
        ribbon_spec(state).no_duplicates(),
        !ribbon_spec(state).contains(SettingsOption::Controls),
        !ribbon_spec(state).contains(SettingsOption::Attr),
        ribbon_spec(ViewportState::SplitDim).contains(option)
            || option == SettingsOption::Controls || option == SettingsOption::Attr,
        ribbon_spec(ViewportState::ThreeDimOnly).contains(option) <==> (ribbon_spec(ViewportState::SplitDim).contains(option)
            && option != SettingsOption::Gradient && option != SettingsOption::Picker),
        ribbon_spec(ViewportState::TwoDimOnly).contains(option) <==> (ribbon_spec(ViewportState::SplitDim).contains(option)
            && option != SettingsOption::Grid && option != SettingsOption::Dim),
{
    let t = ribbon_spec(ViewportState::ThreeDimOnly);
    let w = ribbon_spec(ViewportState::TwoDimOnly);
    let s = ribbon_spec(ViewportState::SplitDim);
    assert(t =~= seq![SettingsOption::Grid, SettingsOption::Dim, SettingsOption::Offset, SettingsOption::Channels,
        SettingsOption::Model]);
    assert(w =~= seq![SettingsOption::Offset, SettingsOption::Channels, SettingsOption::Model,
        SettingsOption::Gradient, SettingsOption::Picker]);
    assert(s =~= seq![SettingsOption::Grid, SettingsOption::Dim, SettingsOption::Offset, SettingsOption::Channels,
        SettingsOption::Model, SettingsOption::Gradient, SettingsOption::Picker]);
    match option {
        SettingsOption::Grid => { assert(s[0] == option); assert(t[0] == option); },
        SettingsOption::Dim => { assert(s[1] == option); assert(t[1] == option); },
        SettingsOption::Offset => { assert(s[2] == option); assert(t[2] == option); assert(w[0] == option); },
        SettingsOption::Channels => { assert(s[3] == option); assert(t[3] == option); assert(w[1] == option); },
        SettingsOption::Model => { assert(s[4] == option); assert(t[4] == option); assert(w[2] == option); },
        SettingsOption::Gradient => { assert(s[5] == option); assert(w[3] == option); },
        SettingsOption::Picker => { assert(s[6] == option); assert(w[4] == option); },
        _ => {},
    }
}

/// The heading of a settings page.
pub fn setting_heading(option: SettingsOption) -> (r: &'static str)
    ensures
        option == SettingsOption::Grid ==> r@ == "Grid Settings"@,
        option == SettingsOption::Offset ==> r@ == "Perceptual Offset"@,
        option == SettingsOption::Channels ==> r@ == "Perceptual Offset"@,
        option == SettingsOption::Model ==> r@ == "Color Model"@,
        option == SettingsOption::Dim ==> r@ == "Shape"@,
        option == SettingsOption::Gradient ==> r@ == "Gradient"@,
        option == SettingsOption::Picker ==> r@ == "Picker"@,
        option == SettingsOption::Controls ==> r@ == "Controls"@,
        option == SettingsOption::Attr ==> r@ == "Attribution"@,
{
    match option {
        SettingsOption::Grid => "Grid Settings",
        SettingsOption::Offset => "Perceptual Offset",
        SettingsOption::Channels => "Perceptual Offset",
        SettingsOption::Model => "Color Model",
        SettingsOption::Dim => "Shape",
        SettingsOption::Gradient => "Gradient",
        SettingsOption::Picker => "Picker",
        SettingsOption::Controls => ControlSettings::default().heading(),
        SettingsOption::Attr => Attribution::default().heading(),
    }
}

/// The page crediting the libraries the visualizer is built on.
#[derive(Debug, Clone, Copy)]
pub struct Attribution {}

impl Setting for Attribution {
    fn heading(&self) -> (r: &'static str)
        ensures
            r@ == "Attribution"@,
    {
        "Attribution"
    }
}

impl Default for Attribution {
    fn default() -> (r: Attribution) {
        Attribution {}
    }
}

/// The page listing the camera controls.
#[derive(Debug, Clone, Copy)]
pub struct ControlSettings {}

impl Setting for ControlSettings {
    fn heading(&self) -> (r: &'static str)
        ensures
            r@ == "Controls"@,
    {
        "Controls"
    }
}

impl Default for ControlSettings {
    fn default() -> (r: ControlSettings) {
        ControlSettings {}
    }
}

/// An empty placeholder page.
#[derive(Debug, Clone, Copy)]
pub struct FooSettings {}

impl Setting for FooSettings {
    fn heading(&self) -> (r: &'static str)
        ensures
            r@ == "Foo"@,
    {
        "Foo"
    }
}

impl Default for FooSettings {
    fn default() -> (r: FooSettings) {
        FooSettings {}
    }
}

/// Which reference grids are drawn.
#[derive(Debug, Clone, Copy, PartialEq, Eq, Structural)]
pub enum GridCategory {
    NoGrid,
    TwoDGrids,
}

impl Default for GridCategory {
    fn default() -> (r: Self)
        ensures
            r == GridCategory::NoGrid,
    {
        GridCategory::NoGrid
    }
}

impl GridCategory {
    /// What the "2D Grids" toggle selects: the 2D grids unless they are
    /// already on, in which case no grid.
    pub fn toggled(self) -> (r: GridCategory)
        ensures
            r == (if self != GridCategory::TwoDGrids { GridCategory::TwoDGrids } else { GridCategory::NoGrid }),
    {
        if self != GridCategory::TwoDGrids {
            GridCategory::TwoDGrids
        } else {
            GridCategory::NoGrid
        }
    }

    /// Whether the grid's scale and divisions are offered: only when a grid
    /// is drawn.
    pub fn shows_grid_controls(self) -> (r: bool)
        ensures
            r == (self != GridCategory::NoGrid),
    {
        self != GridCategory::NoGrid
    }
}

/// Law: toggling the grid twice restores it, and a toggle always switches
/// between showing and hiding the grid controls.
pub proof fn lemma_grid_toggle(g: GridCategory)
    ensures
        (if (if g != GridCategory::TwoDGrids { GridCategory::TwoDGrids } else { GridCategory::NoGrid })
            != GridCategory::TwoDGrids { GridCategory::TwoDGrids } else { GridCategory::NoGrid }) == g,
        ((if g != GridCategory::TwoDGrids { GridCategory::TwoDGrids } else { GridCategory::NoGrid }) != GridCategory::NoGrid)
            == (g == GridCategory::NoGrid),
{
}

/// The tabs of the settings overlay.
#[derive(Debug, Clone, Copy, PartialEq, Eq, Structural)]
pub enum ThreeDimensionSettings {
    Scale,
    PerceptualOffset,
    ChannelSettings,
    ColorModel,
    ColorSpace,
    Dimensionality,
    Info,
}

impl ThreeDimensionSettings {
    /// The label of the tab.
    pub fn label(self) -> (r: &'static str)
        ensures
            self == ThreeDimensionSettings::Scale ==> r@ == "Scale"@,
            self == ThreeDimensionSettings::PerceptualOffset ==> r@ == "Perceptual Offset"@,
            self == ThreeDimensionSettings::ChannelSettings ==> r@ == "Channel Settings"@,
            self == ThreeDimensionSettings::ColorModel ==> r@ == "Color Model"@,
            self == ThreeDimensionSettings::ColorSpace ==> r@ == "Color Space"@,
            self == ThreeDimensionSettings::Dimensionality ==> r@ == "Shape"@,
            self == ThreeDimensionSettings::Info ==> r@ == "Info"@,
    {
        match self {
            ThreeDimensionSettings::Scale => "Scale",
            ThreeDimensionSettings::PerceptualOffset => "Perceptual Offset",
            ThreeDimensionSettings::ChannelSettings => "Channel Settings",
            ThreeDimensionSettings::ColorModel => "Color Model",
            ThreeDimensionSettings::ColorSpace => "Color Space",
            ThreeDimensionSettings::Dimensionality => "Shape",
            ThreeDimensionSettings::Info => "Info",
        }
    }

    /// The tabs in the order the overlay shows them.
    pub fn tabs() -> (r: Vec<ThreeDimensionSettings>)
        ensures
            r@ == seq![
                ThreeDimensionSettings::Scale,
                ThreeDimensionSettings::PerceptualOffset,
                ThreeDimensionSettings::ChannelSettings,
                ThreeDimensionSettings::ColorModel,
                ThreeDimensionSettings::ColorSpace,
                ThreeDimensionSettings::Dimensionality,
                ThreeDimensionSettings::Info,
            ],
    {
        let mut r: Vec<ThreeDimensionSettings> = Vec::new();
        r.push(ThreeDimensionSettings::Scale);
        r.push(ThreeDimensionSettings::PerceptualOffset);
        r.push(ThreeDimensionSettings::ChannelSettings);
        r.push(ThreeDimensionSettings::ColorModel);
        r.push(ThreeDimensionSettings::ColorSpace);
        r.push(ThreeDimensionSettings::Dimensionality);
        r.push(ThreeDimensionSettings::Info);
        r
    }
}

/// A menu of settings pages: the selected page, whether the menu is folded,
/// and its heading.
#[derive(Clone, Copy, Debug)]
pub struct SettingsMenu {
    pub index: usize,
    pub minimized: bool,
    pub heading: &'static str,
}

impl SettingsMenu {
    /// A menu on its first page, unfolded.
    pub fn new(heading: &'static str) -> (r: SettingsMenu)
        ensures
            r.index == 0,
            !r.minimized,
            r.heading == heading,
    {
        SettingsMenu { index: 0, minimized: false, heading }
    }
}

} // verus!
