use gcode_frame_gen::domain::settings::{
    default_axis_x_color, default_material_color, default_minimum_tabs,
    default_use_opengl_renderer, ColorStyle, LegacySettings, Settings, SettingsError, VisualStyle,
    CURRENT_SCHEMA_VERSION,
};
use gcode_frame_gen::export::gcode::ExportError;

/// Millimetres as millionths.
fn mm(value: f64) -> i64 {
    (value * 1_000_000.0).round() as i64
}

#[test]
fn legacy_values_move_to_the_nested_schema() {
    let mut legacy = LegacySettings::default();
    legacy.offset_x = mm(4.5);
    legacy.material_width = mm(120.0);
    legacy.show_grid = false;
    legacy.toolpath_color = "#123456".to_owned();

    let mut settings = legacy.into_settings();
    settings.populate_runtime();
    settings.sync_persisted();

    assert_eq!(settings.schema_version, CURRENT_SCHEMA_VERSION);
    assert_eq!(settings.calculation.frame_offset_x, mm(4.5));
    assert_eq!(settings.material.width, mm(120.0));
    assert!(!settings.display.grid.style.visible);
    assert_eq!(settings.display.source.toolpath.color, "#123456");
    assert_eq!(settings.offset_x, mm(4.5));
    assert_eq!(settings.toolpath_color, "#123456");
    assert!(settings.coordinates.snap_to_geometry);
}

#[test]
fn legacy_defaults_match_the_missing_entries() {
    let legacy = LegacySettings::default();
    assert_eq!(legacy.offset_x, mm(10.0));
    assert_eq!(legacy.material_height, mm(150.0));
    assert_eq!(legacy.minimum_tabs, default_minimum_tabs());
    assert_eq!(legacy.material_color, default_material_color());
    assert!(!legacy.score_tabs);
    let settings = legacy.into_settings();
    assert_eq!(settings.display.local_axes.x_color, default_axis_x_color());
    assert!(settings.display.local_axes.visible);
}

#[test]
fn default_settings_are_populated_and_persisted_alike() {
    let settings = Settings::default();
    assert_eq!(settings.schema_version, CURRENT_SCHEMA_VERSION);
    assert_eq!(settings.offset_x, settings.calculation.frame_offset_x);
    assert_eq!(settings.tool_diameter, settings.machining.tool_diameter);
    assert_eq!(settings.tool_diameter, mm(3.175));
    assert_eq!(settings.cut_depth, mm(1.6));
    assert_eq!(settings.step_depth, mm(0.4));
    assert!(settings.use_opengl_renderer);
    assert!(default_use_opengl_renderer());

    let mut synced = settings.clone();
    synced.sync_persisted();
    assert_eq!(synced.calculation.frame_offset_x, settings.calculation.frame_offset_x);
    assert_eq!(synced.material.width, settings.material.width);
}

#[test]
fn runtime_edits_reach_the_persisted_schema() {
    let mut settings = Settings::default();
    settings.offset_x = mm(7.25);
    settings.tab_width = mm(2.0);
    settings.show_tabs = false;
    settings.cut_depth = mm(2.0);
    settings.sync_persisted();
    assert_eq!(settings.calculation.frame_offset_x, mm(7.25));
    assert_eq!(settings.calculation.tabs.width, mm(2.0));
    assert!(!settings.display.frame.tabs.visible);
    assert_eq!(settings.machining.cut_depth, mm(2.0));

    settings.populate_runtime();
    assert_eq!(settings.offset_x, mm(7.25));
    assert!(!settings.show_tabs);
}

#[test]
fn local_offset_applies_only_when_enabled() {
    let mut settings = Settings::default();
    settings.local_offset_x = mm(3.0);
    settings.local_offset_y = mm(-2.0);
    assert_eq!(settings.local_offset(), (0, 0));
    settings.local_offset_enabled = true;
    assert_eq!(settings.local_offset(), (mm(3.0), mm(-2.0)));
}

#[test]
fn styles_keep_their_colour() {
    assert_eq!(ColorStyle::new("#010203").color, "#010203");
    let style = VisualStyle::new("#abcdef");
    assert!(style.visible);
    assert_eq!(style.color, "#abcdef");
}

#[test]
fn errors_name_what_failed() {
    assert_eq!(
        SettingsError::Read("gone".to_owned()).message(),
        "Failed to read settings file: gone"
    );
    assert_eq!(
        SettingsError::Parse("bad".to_owned()).message(),
        "Failed to parse settings file: bad"
    );
    assert_eq!(
        SettingsError::Serialize("x".to_owned()).message(),
        "Failed to serialize settings: x"
    );
    assert_eq!(
        SettingsError::Write("full".to_owned()).message(),
        "Failed to write settings file: full"
    );
    assert_eq!(
        ExportError::WriteError("denied".to_owned()).message(),
        "Failed to write G-code file: denied"
    );
}
