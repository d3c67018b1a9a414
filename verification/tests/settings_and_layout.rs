use prismatic_visualizer::channel::{generate_range_plan, step_divisor, step_numbers, step_type_for_steps, RangePlan, StepType};
use prismatic_visualizer::settings::{
    bottom_settings, setting_heading, settings_ribbon_options, shared_settings, three_dim_settings,
    two_dim_settings, Attribution, ControlSettings, FooSettings, GridCategory, Setting, SettingsMenu,
    SettingsOption, ThreeDimensionSettings, ViewportState,
};
use prismatic_visualizer::viewport::{initial_layout, update_viewports, views_to_spawn, ViewportRect};

#[test]
fn settings_menu_starts_on_its_first_page() {
    let m = SettingsMenu::new("Settings");
    assert_eq!(m.index, 0);
    assert!(!m.minimized);
    assert_eq!(m.heading, "Settings");
}

#[test]
fn option_groups() {
    assert_eq!(three_dim_settings(), vec![SettingsOption::Grid, SettingsOption::Dim]);
    assert_eq!(two_dim_settings(), vec![SettingsOption::Gradient, SettingsOption::Picker]);
    assert_eq!(shared_settings(), vec![SettingsOption::Offset, SettingsOption::Channels, SettingsOption::Model]);
    assert_eq!(bottom_settings(), vec![SettingsOption::Controls, SettingsOption::Attr]);
}

#[test]
fn ribbon_offers_the_pages_of_the_shown_views() {
    let (grid, dim, offset, channels, model, gradient, picker) = (
        SettingsOption::Grid,
        SettingsOption::Dim,
        SettingsOption::Offset,
        SettingsOption::Channels,
        SettingsOption::Model,
        SettingsOption::Gradient,
        SettingsOption::Picker,
    );
    assert_eq!(settings_ribbon_options(ViewportState::ThreeDimOnly), vec![grid, dim, offset, channels, model]);
    assert_eq!(settings_ribbon_options(ViewportState::TwoDimOnly), vec![offset, channels, model, gradient, picker]);
    assert_eq!(
        settings_ribbon_options(ViewportState::SplitDim),
        vec![grid, dim, offset, channels, model, gradient, picker]
    );
    for state in [ViewportState::ThreeDimOnly, ViewportState::TwoDimOnly, ViewportState::SplitDim] {
        let r = settings_ribbon_options(state);
        assert!(!r.contains(&SettingsOption::Controls) && !r.contains(&SettingsOption::Attr));
    }
}

#[test]
fn headings_of_the_pages() {
    assert_eq!(setting_heading(SettingsOption::Grid), "Grid Settings");
    assert_eq!(setting_heading(SettingsOption::Offset), "Perceptual Offset");
    assert_eq!(setting_heading(SettingsOption::Channels), "Perceptual Offset");
    assert_eq!(setting_heading(SettingsOption::Model), "Color Model");
    assert_eq!(setting_heading(SettingsOption::Dim), "Shape");
    assert_eq!(setting_heading(SettingsOption::Gradient), "Gradient");
    assert_eq!(setting_heading(SettingsOption::Picker), "Picker");
    assert_eq!(setting_heading(SettingsOption::Controls), "Controls");
    assert_eq!(setting_heading(SettingsOption::Attr), "Attribution");
    assert_eq!(Attribution::default().heading(), "Attribution");
    assert_eq!(ControlSettings::default().heading(), "Controls");
    assert_eq!(FooSettings::default().heading(), "Foo");
}

#[test]
fn defaults_of_display_mode_and_grid() {
    assert_eq!(ViewportState::default(), ViewportState::ThreeDimOnly);
    assert_eq!(GridCategory::default(), GridCategory::NoGrid);
}

#[test]
fn grid_toggle_switches_and_twice_restores() {
    assert_eq!(GridCategory::NoGrid.toggled(), GridCategory::TwoDGrids);
    assert_eq!(GridCategory::TwoDGrids.toggled(), GridCategory::NoGrid);
    assert_eq!(GridCategory::NoGrid.toggled().toggled(), GridCategory::NoGrid);
    assert!(GridCategory::TwoDGrids.shows_grid_controls());
    assert!(!GridCategory::NoGrid.shows_grid_controls());
}

#[test]
fn overlay_tabs_and_labels() {
    let tabs = ThreeDimensionSettings::tabs();
    let labels: Vec<&str> = tabs.iter().map(|t| t.label()).collect();
    assert_eq!(
        labels,
        vec!["Scale", "Perceptual Offset", "Channel Settings", "Color Model", "Color Space", "Shape", "Info"]
    );
}

#[test]
fn channel_step_numbers_by_step_type() {
    assert_eq!(step_numbers(4, StepType::Forward, false), vec![0, 1, 2, 3]);
    assert_eq!(step_numbers(4, StepType::Reverse, false), vec![1, 2, 3, 4]);
    assert_eq!(step_numbers(4, StepType::Inclusive, false), vec![0, 1, 2, 3]);
    assert_eq!(step_numbers(4, StepType::Forward, true), vec![0, 1, 2, 3, 4]);
    assert_eq!(step_numbers(4, StepType::Reverse, true), vec![1, 2, 3, 4, 5]);
    assert_eq!(step_numbers(0, StepType::Forward, false), Vec::<usize>::new());
    assert_eq!(step_divisor(4, StepType::Forward, false), 4);
    assert_eq!(step_divisor(4, StepType::Reverse, true), 5);
    assert_eq!(step_divisor(4, StepType::Inclusive, false), 3);
    assert_eq!(step_divisor(4, StepType::Inclusive, true), 4);
    assert_eq!(step_divisor(0, StepType::Inclusive, false), -1);
}

#[test]
fn channel_values_reach_the_ends_as_the_step_type_says() {
    let (start, end) = (0.2f32, 0.8f32);
    let values = |t: StepType| -> Vec<f32> {
        let d = step_divisor(3, t, false) as f32;
        step_numbers(3, t, false).iter().map(|&s| start + s as f32 * ((end - start) / d)).collect()
    };
    let f = values(StepType::Forward);
    assert!((f[0] - start).abs() < 1e-6 && (f[2] - 0.6).abs() < 1e-6);
    let r = values(StepType::Reverse);
    assert!((r[0] - 0.4).abs() < 1e-6 && (r[2] - end).abs() < 1e-6);
    let i = values(StepType::Inclusive);
    assert!((i[0] - start).abs() < 1e-6 && (i[1] - 0.5).abs() < 1e-6 && (i[2] - end).abs() < 1e-6);
}

#[test]
fn range_plans() {
    assert_eq!(generate_range_plan(12, StepType::Forward, false), RangePlan { starts_at_end: false, steps: 12 });
    assert_eq!(generate_range_plan(12, StepType::Reverse, true), RangePlan { starts_at_end: true, steps: 11 });
    assert_eq!(generate_range_plan(8, StepType::Inclusive, false), RangePlan { starts_at_end: false, steps: 9 });
    assert_eq!(generate_range_plan(8, StepType::Inclusive, true), RangePlan { starts_at_end: false, steps: 8 });
}

#[test]
fn single_step_channels_cannot_be_inclusive() {
    assert_eq!(step_type_for_steps(1, StepType::Inclusive), (StepType::Forward, false));
    assert_eq!(step_type_for_steps(2, StepType::Inclusive), (StepType::Inclusive, true));
    assert_eq!(step_type_for_steps(1, StepType::Reverse), (StepType::Reverse, true));
    let (t, _) = step_type_for_steps(1, StepType::Inclusive);
    assert!(step_divisor(1, t, false) >= 1);
}

#[test]
fn start_up_layout_of_a_full_hd_window() {
    let l = initial_layout(1920, 1080);
    assert_eq!(l.ui, ViewportRect { position_x: 0, position_y: 0, size_x: 1920, size_y: 216 });
    assert_eq!(l.three_dim, ViewportRect { position_x: 0, position_y: 216, size_x: 1920, size_y: 864 });
    assert_eq!(l.two_dim, ViewportRect { position_x: 0, position_y: 216, size_x: 0, size_y: 864 });
    let small = initial_layout(3, 4);
    assert_eq!(small.ui.size_y, 0);
    assert_eq!(small.three_dim.size_y, 4);
}

#[test]
fn viewports_follow_the_display_mode() {
    let l = initial_layout(1001, 500);
    let (t, w) = update_viewports(ViewportState::ThreeDimOnly, 1001, l.three_dim, l.two_dim);
    assert_eq!((t.size_x, w.size_x), (1001, 0));
    let (t, w) = update_viewports(ViewportState::TwoDimOnly, 1001, l.three_dim, l.two_dim);
    assert_eq!((t.size_x, w.position_x, w.size_x), (0, 0, 1001));
    let (t, w) = update_viewports(ViewportState::SplitDim, 1001, l.three_dim, l.two_dim);
    assert_eq!((t.position_x, t.size_x, w.position_x, w.size_x), (0, 500, 500, 500));
    assert_eq!((t.position_y, t.size_y, w.position_y, w.size_y), (100, 400, 100, 400));
    let (_, w2) = update_viewports(ViewportState::ThreeDimOnly, 1001, t, w);
    assert_eq!((w2.position_x, w2.size_x), (500, 0));
}

#[test]
fn views_rebuilt_per_display_mode() {
    assert_eq!(views_to_spawn(ViewportState::ThreeDimOnly), (true, false));
    assert_eq!(views_to_spawn(ViewportState::TwoDimOnly), (false, true));
    assert_eq!(views_to_spawn(ViewportState::SplitDim), (true, true));
}
