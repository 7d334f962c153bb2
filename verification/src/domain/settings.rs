//! Application settings: the nested schema that is persisted, and the flat
//! runtime fields that the rest of the application reads.
//!
//! Lengths, feeds and speeds are millionths (see `crate::number`).
use vstd::prelude::*;

use crate::text::push_str;

verus! {

broadcast use vstd::string::group_string_axioms;

/// Version of the nested settings schema.
pub const CURRENT_SCHEMA_VERSION: u32 = 2;

/// Frame offsets and holding tabs, as persisted.
#[derive(Debug, Clone)]
pub struct CalculationSettings {
    pub frame_offset_x: i64,
    pub frame_offset_y: i64,
    pub tabs: TabSettings,
}

/// Holding tab layout, as persisted.
#[derive(Debug, Clone)]
pub struct TabSettings {
    pub width: i64,
    pub minimum_count: usize,
    pub maximum_gap: i64,
    pub score_to_half_depth: bool,
}

/// Local origin and snapping, as persisted.
#[derive(Debug, Clone)]
pub struct CoordinateSettings {
    pub local_origin_enabled: bool,
    pub local_origin_x: i64,
    pub local_origin_y: i64,
    pub snap_to_geometry: bool,
}

/// Stock sheet dimensions and position, as persisted.
#[derive(Debug, Clone)]
pub struct MaterialSettings {
    pub width: i64,
    pub height: i64,
    pub offset_x: i64,
    pub offset_y: i64,
    pub edge_margin_x: i64,
    pub edge_margin_y: i64,
}

/// Preview colours and visibility, as persisted.
#[derive(Debug, Clone)]
pub struct DisplaySettings {
    pub background: ColorStyle,
    pub grid: GridStyle,
    pub axes: AxesStyle,
    pub local_axes: AxesStyle,
    pub material: MaterialDisplaySettings,
    pub source: SourceDisplaySettings,
    pub frame: FrameDisplaySettings,
}

/// A colour.
#[derive(Debug, Clone)]
pub struct ColorStyle {
    pub color: String,
}

/// A colour and whether the element is shown.
#[derive(Debug, Clone)]
pub struct VisualStyle {
    pub visible: bool,
    pub color: String,
}

/// Grid lines and their labels.
#[derive(Debug, Clone)]
pub struct GridStyle {
    pub style: VisualStyle,
    pub label_color: String,
}

/// Coordinate axes.
#[derive(Debug, Clone)]
pub struct AxesStyle {
    pub visible: bool,
    pub x_color: String,
    pub y_color: String,
}

/// Stock sheet outline, safe area and margin hatching.
#[derive(Debug, Clone)]
pub struct MaterialDisplaySettings {
    pub outline: VisualStyle,
    pub safe_area: VisualStyle,
    pub margin_hatch: VisualStyle,
}

/// Source tool path and rapid moves.
#[derive(Debug, Clone)]
pub struct SourceDisplaySettings {
    pub toolpath: VisualStyle,
    pub rapid_moves: VisualStyle,
}

/// Frame outline, expanded area and tabs.
#[derive(Debug, Clone)]
pub struct FrameDisplaySettings {
    pub outline: VisualStyle,
    pub expanded_area: VisualStyle,
    pub tabs: VisualStyle,
}

/// Machining values, as persisted.
#[derive(Debug, Clone)]
pub struct MachiningSettings {
    pub tool_diameter: i64,
    pub cut_depth: i64,
    pub step_depth: i64,
    pub feed_rate: i64,
    pub spindle_speed: i64,
}

/// All settings: the persisted schema (`schema_version` to `machining`) and
/// the runtime fields derived from it.
#[derive(Debug, Clone)]
pub struct Settings {
    pub schema_version: u32,
    pub calculation: CalculationSettings,
    pub coordinates: CoordinateSettings,
    pub material: MaterialSettings,
    pub display: DisplaySettings,
    pub use_opengl_renderer: bool,
    pub machining: MachiningSettings,
    pub offset_x: i64,
    pub offset_y: i64,
    pub local_offset_enabled: bool,
    pub local_offset_x: i64,
    pub local_offset_y: i64,
    pub snap_to_geometry: bool,
    pub material_width: i64,
    pub material_height: i64,
    pub material_offset_x: i64,
    pub material_offset_y: i64,
    pub material_edge_margin_x: i64,
    pub material_edge_margin_y: i64,
    pub show_grid: bool,
    pub show_axes: bool,
    pub show_local_axes: bool,
    pub show_material: bool,
    pub show_safe_area: bool,
    pub show_margin_hatch: bool,
    pub material_color: String,
    pub safe_area_color: String,
    pub frame_color: String,
    pub background_color: String,
    pub grid_color: String,
    pub grid_label_color: String,
    pub axis_x_color: String,
    pub axis_y_color: String,
    pub local_axis_x_color: String,
    pub local_axis_y_color: String,
    pub toolpath_color: String,
    pub rapid_color: String,
    pub expanded_frame_color: String,
    pub tab_color: String,
    pub margin_hatch_color: String,
    pub show_toolpath: bool,
    pub show_rapid: bool,
    pub show_expanded_frame: bool,
    pub show_frame: bool,
    pub show_tabs: bool,
    pub tab_width: i64,
    pub minimum_tabs: usize,
    pub maximum_tab_gap: i64,
    pub score_tabs: bool,
    pub tool_diameter: i64,
    pub cut_depth: i64,
    pub step_depth: i64,
    /// Distinct progressive cutting depths read from the current source file.
    /// This is runtime state: it must not be saved as an application preference.
    pub source_cut_depths: Vec<i64>,
    pub feed_rate: i64,
    pub spindle_speed: i64,
}

impl Settings {
    /// The settings with every runtime field taken from the persisted schema.
    pub open spec fn populated(self) -> Settings {
        Settings {
            offset_x: self.calculation.frame_offset_x,
            offset_y: self.calculation.frame_offset_y,
            tab_width: self.calculation.tabs.width,
            minimum_tabs: self.calculation.tabs.minimum_count,
            maximum_tab_gap: self.calculation.tabs.maximum_gap,
            score_tabs: self.calculation.tabs.score_to_half_depth,
            local_offset_enabled: self.coordinates.local_origin_enabled,
            local_offset_x: self.coordinates.local_origin_x,
            local_offset_y: self.coordinates.local_origin_y,
            snap_to_geometry: self.coordinates.snap_to_geometry,
            material_width: self.material.width,
            material_height: self.material.height,
            material_offset_x: self.material.offset_x,
            material_offset_y: self.material.offset_y,
            material_edge_margin_x: self.material.edge_margin_x,
            material_edge_margin_y: self.material.edge_margin_y,
            show_grid: self.display.grid.style.visible,
            grid_color: self.display.grid.style.color,
            grid_label_color: self.display.grid.label_color,
            show_axes: self.display.axes.visible,
            axis_x_color: self.display.axes.x_color,
            axis_y_color: self.display.axes.y_color,
            show_local_axes: self.display.local_axes.visible,
            local_axis_x_color: self.display.local_axes.x_color,
            local_axis_y_color: self.display.local_axes.y_color,
            background_color: self.display.background.color,
            show_material: self.display.material.outline.visible,
            material_color: self.display.material.outline.color,
            show_safe_area: self.display.material.safe_area.visible,
            safe_area_color: self.display.material.safe_area.color,
            show_margin_hatch: self.display.material.margin_hatch.visible,
            margin_hatch_color: self.display.material.margin_hatch.color,
            show_toolpath: self.display.source.toolpath.visible,
            toolpath_color: self.display.source.toolpath.color,
            show_rapid: self.display.source.rapid_moves.visible,
            rapid_color: self.display.source.rapid_moves.color,
            show_frame: self.display.frame.outline.visible,
            frame_color: self.display.frame.outline.color,
            show_expanded_frame: self.display.frame.expanded_area.visible,
            expanded_frame_color: self.display.frame.expanded_area.color,
            show_tabs: self.display.frame.tabs.visible,
            tab_color: self.display.frame.tabs.color,
            tool_diameter: self.machining.tool_diameter,
            cut_depth: self.machining.cut_depth,
            step_depth: self.machining.step_depth,
            feed_rate: self.machining.feed_rate,
            spindle_speed: self.machining.spindle_speed,
            ..self
        }
    }

    /// The settings with the persisted schema rebuilt from the runtime fields.
    pub open spec fn synced(self) -> Settings {
        Settings {
            calculation: CalculationSettings {
                frame_offset_x: self.offset_x,
                frame_offset_y: self.offset_y,
                tabs: TabSettings {
                    width: self.tab_width,
                    minimum_count: self.minimum_tabs,
                    maximum_gap: self.maximum_tab_gap,
                    score_to_half_depth: self.score_tabs,
                },
            },
            coordinates: CoordinateSettings {
                local_origin_enabled: self.local_offset_enabled,
                local_origin_x: self.local_offset_x,
                local_origin_y: self.local_offset_y,
                snap_to_geometry: self.snap_to_geometry,
            },
            material: MaterialSettings {
                width: self.material_width,
                height: self.material_height,
                offset_x: self.material_offset_x,
                offset_y: self.material_offset_y,
                edge_margin_x: self.material_edge_margin_x,
                edge_margin_y: self.material_edge_margin_y,
            },
            display: DisplaySettings {
                background: ColorStyle { color: self.background_color },
                grid: GridStyle {
                    style: VisualStyle { visible: self.show_grid, color: self.grid_color },
                    label_color: self.grid_label_color,
                },
                axes: AxesStyle {
                    visible: self.show_axes,
                    x_color: self.axis_x_color,
                    y_color: self.axis_y_color,
                },
                local_axes: AxesStyle {
                    visible: self.show_local_axes,
                    x_color: self.local_axis_x_color,
                    y_color: self.local_axis_y_color,
                },
                material: MaterialDisplaySettings {
                    outline: VisualStyle { visible: self.show_material, color: self.material_color },
                    safe_area: VisualStyle {
                        visible: self.show_safe_area,
                        color: self.safe_area_color,
                    },
                    margin_hatch: VisualStyle {
                        visible: self.show_margin_hatch,
                        color: self.margin_hatch_color,
                    },
                },
                source: SourceDisplaySettings {
                    toolpath: VisualStyle {
                        visible: self.show_toolpath,
                        color: self.toolpath_color,
                    },
                    rapid_moves: VisualStyle { visible: self.show_rapid, color: self.rapid_color },
                },
                frame: FrameDisplaySettings {
                    outline: VisualStyle { visible: self.show_frame, color: self.frame_color },
                    expanded_area: VisualStyle {
                        visible: self.show_expanded_frame,
                        color: self.expanded_frame_color,
                    },
                    tabs: VisualStyle { visible: self.show_tabs, color: self.tab_color },
                },
            },
            machining: MachiningSettings {
                tool_diameter: self.tool_diameter,
                cut_depth: self.cut_depth,
                step_depth: self.step_depth,
                feed_rate: self.feed_rate,
                spindle_speed: self.spindle_speed,
            },
            ..self
        }
    }

    /// Copies the persisted schema into the runtime fields.
    pub fn populate_runtime(&mut self)
        ensures
            *final(self) == old(self).populated(),
    {
        self.offset_x = self.calculation.frame_offset_x;
        self.offset_y = self.calculation.frame_offset_y;
        self.tab_width = self.calculation.tabs.width;
        self.minimum_tabs = self.calculation.tabs.minimum_count;
        self.maximum_tab_gap = self.calculation.tabs.maximum_gap;
        self.score_tabs = self.calculation.tabs.score_to_half_depth;
        self.local_offset_enabled = self.coordinates.local_origin_enabled;
        self.local_offset_x = self.coordinates.local_origin_x;
        self.local_offset_y = self.coordinates.local_origin_y;
        self.snap_to_geometry = self.coordinates.snap_to_geometry;
        self.material_width = self.material.width;
        self.material_height = self.material.height;
        self.material_offset_x = self.material.offset_x;
        self.material_offset_y = self.material.offset_y;
        self.material_edge_margin_x = self.material.edge_margin_x;
        self.material_edge_margin_y = self.material.edge_margin_y;
        self.show_grid = self.display.grid.style.visible;
        self.grid_color = self.display.grid.style.color.clone();
        self.grid_label_color = self.display.grid.label_color.clone();
        self.show_axes = self.display.axes.visible;
        self.axis_x_color = self.display.axes.x_color.clone();
        self.axis_y_color = self.display.axes.y_color.clone();
        self.show_local_axes = self.display.local_axes.visible;
        self.local_axis_x_color = self.display.local_axes.x_color.clone();
        self.local_axis_y_color = self.display.local_axes.y_color.clone();
        self.background_color = self.display.background.color.clone();
        self.show_material = self.display.material.outline.visible;
        self.material_color = self.display.material.outline.color.clone();
        self.show_safe_area = self.display.material.safe_area.visible;
        self.safe_area_color = self.display.material.safe_area.color.clone();
        self.show_margin_hatch = self.display.material.margin_hatch.visible;
        self.margin_hatch_color = self.display.material.margin_hatch.color.clone();
        self.show_toolpath = self.display.source.toolpath.visible;
        self.toolpath_color = self.display.source.toolpath.color.clone();
        self.show_rapid = self.display.source.rapid_moves.visible;
        self.rapid_color = self.display.source.rapid_moves.color.clone();
        self.show_frame = self.display.frame.outline.visible;
        self.frame_color = self.display.frame.outline.color.clone();
        self.show_expanded_frame = self.display.frame.expanded_area.visible;
        self.expanded_frame_color = self.display.frame.expanded_area.color.clone();
        self.show_tabs = self.display.frame.tabs.visible;
        self.tab_color = self.display.frame.tabs.color.clone();
        self.tool_diameter = self.machining.tool_diameter;
        self.cut_depth = self.machining.cut_depth;
        self.step_depth = self.machining.step_depth;
        self.feed_rate = self.machining.feed_rate;
        self.spindle_speed = self.machining.spindle_speed;
    }

    /// Rebuilds the persisted schema from the runtime fields.
    pub fn sync_persisted(&mut self)
        ensures
            *final(self) == old(self).synced(),
    {
        self.calculation.frame_offset_x = self.offset_x;
        self.calculation.frame_offset_y = self.offset_y;
        self.calculation.tabs = TabSettings {
            width: self.tab_width,
            minimum_count: self.minimum_tabs,
            maximum_gap: self.maximum_tab_gap,
            score_to_half_depth: self.score_tabs,
        };
        self.coordinates = CoordinateSettings {
            local_origin_enabled: self.local_offset_enabled,
            local_origin_x: self.local_offset_x,
            local_origin_y: self.local_offset_y,
            snap_to_geometry: self.snap_to_geometry,
        };
        self.material = MaterialSettings {
            width: self.material_width,
            height: self.material_height,
            offset_x: self.material_offset_x,
            offset_y: self.material_offset_y,
            edge_margin_x: self.material_edge_margin_x,
            edge_margin_y: self.material_edge_margin_y,
        };
        self.display = DisplaySettings {
            background: ColorStyle { color: self.background_color.clone() },
            grid: GridStyle {
                style: VisualStyle { visible: self.show_grid, color: self.grid_color.clone() },
                label_color: self.grid_label_color.clone(),
            },
            axes: AxesStyle {
                visible: self.show_axes,
                x_color: self.axis_x_color.clone(),
                y_color: self.axis_y_color.clone(),
            },
            local_axes: AxesStyle {
                visible: self.show_local_axes,
                x_color: self.local_axis_x_color.clone(),
                y_color: self.local_axis_y_color.clone(),
            },
            material: MaterialDisplaySettings {
                outline: VisualStyle {
                    visible: self.show_material,
                    color: self.material_color.clone(),
                },
                safe_area: VisualStyle {
                    visible: self.show_safe_area,
                    color: self.safe_area_color.clone(),
                },
                margin_hatch: VisualStyle {
                    visible: self.show_margin_hatch,
                    color: self.margin_hatch_color.clone(),
                },
            },
            source: SourceDisplaySettings {
                toolpath: VisualStyle {
                    visible: self.show_toolpath,
                    color: self.toolpath_color.clone(),
                },
                rapid_moves: VisualStyle {
                    visible: self.show_rapid,
                    color: self.rapid_color.clone(),
                },
            },
            frame: FrameDisplaySettings {
                outline: VisualStyle { visible: self.show_frame, color: self.frame_color.clone() },
                expanded_area: VisualStyle {
                    visible: self.show_expanded_frame,
                    color: self.expanded_frame_color.clone(),
                },
                tabs: VisualStyle { visible: self.show_tabs, color: self.tab_color.clone() },
            },
        };
        self.machining = MachiningSettings {
            tool_diameter: self.tool_diameter,
            cut_depth: self.cut_depth,
            step_depth: self.step_depth,
            feed_rate: self.feed_rate,
            spindle_speed: self.spindle_speed,
        };
    }

    /// The translation of the local program: the local origin when it is
    /// enabled, else none.
    pub fn local_offset(&self) -> (r: (i64, i64))
        ensures
            r == (if self.local_offset_enabled {
                (self.local_offset_x, self.local_offset_y)
            } else {
                (0i64, 0i64)
            }),
    {
        if self.local_offset_enabled {
            (self.local_offset_x, self.local_offset_y)
        } else {
            (0, 0)
        }
    }
}

impl ColorStyle {
    /// A colour style of the given colour.
    pub fn new(color: &str) -> (s: Self)
        ensures
            s.color@ == color@,
    {
        Self { color: color.to_owned() }
    }
}

impl VisualStyle {
    /// A visible element of the given colour.
    pub fn new(color: &str) -> (s: Self)
        ensures
            s.visible,
            s.color@ == color@,
    {
        Self { visible: true, color: color.to_owned() }
    }
}

impl AxesStyle {
    /// Visible axes in the default red (X) and green (Y).
    pub open spec fn is_default(self) -> bool {
        &&& self.visible
        &&& self.x_color@ == "#dc4646"@
        &&& self.y_color@ == "#46d278"@
    }
}

impl Default for AxesStyle {
    fn default() -> (s: Self)
        ensures
            s.is_default(),
    {
        Self { visible: true, x_color: "#dc4646".to_owned(), y_color: "#46d278".to_owned() }
    }
}

impl CalculationSettings {
    /// Offsets of 10 mm and the default tab layout.
    pub open spec fn default_value() -> CalculationSettings {
        CalculationSettings {
            frame_offset_x: 10_000_000,
            frame_offset_y: 10_000_000,
            tabs: TabSettings::default_value(),
        }
    }
}

impl Default for CalculationSettings {
    fn default() -> (s: Self)
        ensures
            s == CalculationSettings::default_value(),
    {
        Self { frame_offset_x: 10_000_000, frame_offset_y: 10_000_000, tabs: TabSettings::default() }
    }
}

impl TabSettings {
    /// Tabs 3 mm wide, at least three of them, at most 20 mm apart, not scored.
    pub open spec fn default_value() -> TabSettings {
        TabSettings {
            width: 3_000_000,
            minimum_count: 3,
            maximum_gap: 20_000_000,
            score_to_half_depth: false,
        }
    }
}

impl Default for TabSettings {
    fn default() -> (s: Self)
        ensures
            s == TabSettings::default_value(),
    {
        Self { width: 3_000_000, minimum_count: 3, maximum_gap: 20_000_000, score_to_half_depth: false }
    }
}

impl CoordinateSettings {
    /// No local origin; snapping on.
    pub open spec fn default_value() -> CoordinateSettings {
        CoordinateSettings {
            local_origin_enabled: false,
            local_origin_x: 0,
            local_origin_y: 0,
            snap_to_geometry: true,
        }
    }
}

impl Default for CoordinateSettings {
    fn default() -> (s: Self)
        ensures
            s == CoordinateSettings::default_value(),
    {
        Self { local_origin_enabled: false, local_origin_x: 0, local_origin_y: 0, snap_to_geometry: true }
    }
}

impl MaterialSettings {
    /// A 150 mm x 150 mm sheet at the machine origin, without edge margins.
    pub open spec fn default_value() -> MaterialSettings {
        MaterialSettings {
            width: 150_000_000,
            height: 150_000_000,
            offset_x: 0,
            offset_y: 0,
            edge_margin_x: 0,
            edge_margin_y: 0,
        }
    }
}

impl Default for MaterialSettings {
    fn default() -> (s: Self)
        ensures
            s == MaterialSettings::default_value(),
    {
        Self {
            width: 150_000_000,
            height: 150_000_000,
            offset_x: 0,
            offset_y: 0,
            edge_margin_x: 0,
            edge_margin_y: 0,
        }
    }
}

impl MachiningSettings {
    /// A 3.175 mm tool cutting 1.6 mm deep in 0.4 mm steps at 120 mm/min and
    /// 800 rpm.
    pub open spec fn default_value() -> MachiningSettings {
        MachiningSettings {
            tool_diameter: 3_175_000,
            cut_depth: 1_600_000,
            step_depth: 400_000,
            feed_rate: 120_000_000,
            spindle_speed: 800_000_000,
        }
    }
}

impl Default for MachiningSettings {
    fn default() -> (s: Self)
        ensures
            s == MachiningSettings::default_value(),
    {
        Self {
            tool_diameter: 3_175_000,
            cut_depth: 1_600_000,
            step_depth: 400_000,
            feed_rate: 120_000_000,
            spindle_speed: 800_000_000,
        }
    }
}

impl DisplaySettings {
    /// Every element visible, in the default colours.
    pub open spec fn is_default(self) -> bool {
        &&& self.background.color@ == "#0e1116"@
        &&& self.grid.style.visible && self.grid.style.color@ == "#2a303a"@
        &&& self.grid.label_color@ == "#96a0af"@
        &&& self.axes.is_default()
        &&& self.local_axes.is_default()
        &&& self.material.outline.visible && self.material.outline.color@ == "#be64ff"@
        &&& self.material.safe_area.visible && self.material.safe_area.color@ == "#ff4646"@
        &&& self.material.margin_hatch.visible && self.material.margin_hatch.color@
            == "#ff4646"@
        &&& self.source.toolpath.visible && self.source.toolpath.color@ == "#00d2ff"@
        &&& self.source.rapid_moves.visible && self.source.rapid_moves.color@ == "#ffbe00"@
        &&& self.frame.outline.visible && self.frame.outline.color@ == "#ff4664"@
        &&& self.frame.expanded_area.visible && self.frame.expanded_area.color@ == "#ffd200"@
        &&& self.frame.tabs.visible && self.frame.tabs.color@ == "#ffdc46"@
    }
}

impl Default for DisplaySettings {
    fn default() -> (s: Self)
        ensures
            s.is_default(),
    {
        Self {
            background: ColorStyle::new("#0e1116"),
            grid: GridStyle { style: VisualStyle::new("#2a303a"), label_color: "#96a0af".to_owned() },
            axes: AxesStyle {
                visible: true,
                x_color: "#dc4646".to_owned(),
                y_color: "#46d278".to_owned(),
            },
            local_axes: AxesStyle {
                visible: true,
                x_color: "#dc4646".to_owned(),
                y_color: "#46d278".to_owned(),
            },
            material: MaterialDisplaySettings {
                outline: VisualStyle::new("#be64ff"),
                safe_area: VisualStyle::new("#ff4646"),
                margin_hatch: VisualStyle::new("#ff4646"),
            },
            source: SourceDisplaySettings {
                toolpath: VisualStyle::new("#00d2ff"),
                rapid_moves: VisualStyle::new("#ffbe00"),
            },
            frame: FrameDisplaySettings {
                outline: VisualStyle::new("#ff4664"),
                expanded_area: VisualStyle::new("#ffd200"),
                tabs: VisualStyle::new("#ffdc46"),
            },
        }
    }
}

impl Settings {
    /// The default settings: the current schema with default values, the
    /// OpenGL preview, no source depths, and runtime fields that agree with
    /// the schema.
    pub open spec fn is_default(self) -> bool {
        &&& self.schema_version == CURRENT_SCHEMA_VERSION
        &&& self.calculation == CalculationSettings::default_value()
        &&& self.coordinates == CoordinateSettings::default_value()
        &&& self.material == MaterialSettings::default_value()
        &&& self.display.is_default()
        &&& self.use_opengl_renderer
        &&& self.machining == MachiningSettings::default_value()
        &&& self.source_cut_depths@.len() == 0
        &&& self == self.populated()
    }
}

impl Default for Settings {
    fn default() -> (s: Self)
        ensures
            s.is_default(),
    {
        let mut settings = Self {
            schema_version: CURRENT_SCHEMA_VERSION,
            calculation: CalculationSettings::default(),
            coordinates: CoordinateSettings::default(),
            material: MaterialSettings::default(),
            display: DisplaySettings::default(),
            use_opengl_renderer: true,
            machining: MachiningSettings::default(),
            offset_x: 0,
            offset_y: 0,
            local_offset_enabled: false,
            local_offset_x: 0,
            local_offset_y: 0,
            snap_to_geometry: true,
            material_width: 0,
            material_height: 0,
            material_offset_x: 0,
            material_offset_y: 0,
            material_edge_margin_x: 0,
            material_edge_margin_y: 0,
            show_grid: false,
            show_axes: false,
            show_local_axes: false,
            show_material: false,
            show_safe_area: false,
            show_margin_hatch: false,
            material_color: String::new(),
            safe_area_color: String::new(),
            frame_color: String::new(),
            background_color: String::new(),
            grid_color: String::new(),
            grid_label_color: String::new(),
            axis_x_color: String::new(),
            axis_y_color: String::new(),
            local_axis_x_color: String::new(),
            local_axis_y_color: String::new(),
            toolpath_color: String::new(),
            rapid_color: String::new(),
            expanded_frame_color: String::new(),
            tab_color: String::new(),
            margin_hatch_color: String::new(),
            show_toolpath: false,
            show_rapid: false,
            show_expanded_frame: false,
            show_frame: false,
            show_tabs: false,
            tab_width: 0,
            minimum_tabs: 0,
            maximum_tab_gap: 0,
            score_tabs: false,
            tool_diameter: 0,
            cut_depth: 0,
            step_depth: 0,
            source_cut_depths: Vec::new(),
            feed_rate: 0,
            spindle_speed: 0,
        };
        settings.populate_runtime();
        proof {
            law_populate_twice(settings);
        }
        settings
    }
}

/// The OpenGL preview is selected unless the settings say otherwise.
pub fn default_use_opengl_renderer() -> (b: bool)
    ensures
        b,
{
    true
}

/// Populating twice is populating once.
pub proof fn law_populate_twice(s: Settings)
    ensures
        s.populated().populated() == s.populated(),
{
}

/// Flat settings of the first schema, before `schema_version` existed.
/// Missing entries take the values of the `default_*` functions.
#[derive(Debug, Clone)]
pub struct LegacySettings {
    pub offset_x: i64,
    pub offset_y: i64,
    pub local_offset_enabled: bool,
    pub local_offset_x: i64,
    pub local_offset_y: i64,
    pub material_width: i64,
    pub material_height: i64,
    pub material_offset_x: i64,
    pub material_offset_y: i64,
    pub material_edge_margin_x: i64,
    pub material_edge_margin_y: i64,
    pub show_grid: bool,
    pub show_axes: bool,
    pub show_material: bool,
    pub show_safe_area: bool,
    pub show_margin_hatch: bool,
    pub material_color: String,
    pub safe_area_color: String,
    pub frame_color: String,
    pub background_color: String,
    pub grid_color: String,
    pub grid_label_color: String,
    pub axis_x_color: String,
    pub axis_y_color: String,
    pub toolpath_color: String,
    pub rapid_color: String,
    pub expanded_frame_color: String,
    pub tab_color: String,
    pub margin_hatch_color: String,
    pub show_toolpath: bool,
    pub show_rapid: bool,
    pub show_expanded_frame: bool,
    pub show_frame: bool,
    pub show_tabs: bool,
    pub tab_width: i64,
    pub minimum_tabs: usize,
    pub maximum_tab_gap: i64,
    pub score_tabs: bool,
}

impl LegacySettings {
    /// Every entry holds the value that a legacy file without it reads as.
    pub open spec fn is_default(self) -> bool {
        &&& self.offset_x == 10_000_000
        &&& self.offset_y == 10_000_000
        &&& !self.local_offset_enabled
        &&& self.local_offset_x == 0
        &&& self.local_offset_y == 0
        &&& self.material_width == 150_000_000
        &&& self.material_height == 150_000_000
        &&& self.material_offset_x == 0
        &&& self.material_offset_y == 0
        &&& self.material_edge_margin_x == 0
        &&& self.material_edge_margin_y == 0
        &&& self.show_grid && self.show_axes && self.show_material
        &&& self.show_safe_area && self.show_margin_hatch
        &&& self.material_color@ == "#be64ff"@
        &&& self.safe_area_color@ == "#ff4646"@
        &&& self.frame_color@ == "#ff4664"@
        &&& self.background_color@ == "#0e1116"@
        &&& self.grid_color@ == "#2a303a"@
        &&& self.grid_label_color@ == "#96a0af"@
        &&& self.axis_x_color@ == "#dc4646"@
        &&& self.axis_y_color@ == "#46d278"@
        &&& self.toolpath_color@ == "#00d2ff"@
        &&& self.rapid_color@ == "#ffbe00"@
        &&& self.expanded_frame_color@ == "#ffd200"@
        &&& self.tab_color@ == "#ffdc46"@
        &&& self.margin_hatch_color@ == "#ff4646"@
        &&& self.show_toolpath && self.show_rapid && self.show_expanded_frame
        &&& self.show_frame && self.show_tabs
        &&& self.tab_width == 3_000_000
        &&& self.minimum_tabs == 3
        &&& self.maximum_tab_gap == 20_000_000
        &&& !self.score_tabs
    }
}

impl Default for LegacySettings {
    fn default() -> (s: Self)
        ensures
            s.is_default(),
    {
        Self {
            offset_x: default_offset(),
            offset_y: default_offset(),
            local_offset_enabled: false,
            local_offset_x: 0,
            local_offset_y: 0,
            material_width: default_material_width(),
            material_height: default_material_width(),
            material_offset_x: 0,
            material_offset_y: 0,
            material_edge_margin_x: 0,
            material_edge_margin_y: 0,
            show_grid: default_true(),
            show_axes: default_true(),
            show_material: default_true(),
            show_safe_area: default_true(),
            show_margin_hatch: default_true(),
            material_color: default_material_color(),
            safe_area_color: default_safe_area_color(),
            frame_color: default_frame_color(),
            background_color: default_background_color(),
            grid_color: default_grid_color(),
            grid_label_color: default_grid_label_color(),
            axis_x_color: default_axis_x_color(),
            axis_y_color: default_axis_y_color(),
            toolpath_color: default_toolpath_color(),
            rapid_color: default_rapid_color(),
            expanded_frame_color: default_expanded_frame_color(),
            tab_color: default_tab_color(),
            margin_hatch_color: default_margin_hatch_color(),
            show_toolpath: default_true(),
            show_rapid: default_true(),
            show_expanded_frame: default_true(),
            show_frame: default_true(),
            show_tabs: default_true(),
            tab_width: default_tab_width(),
            minimum_tabs: default_minimum_tabs(),
            maximum_tab_gap: default_maximum_tab_gap(),
            score_tabs: false,
        }
    }
}

impl LegacySettings {
    /// The nested schema that the legacy values map to.
    pub open spec fn nested(self, base: Settings) -> Settings {
        Settings {
            calculation: CalculationSettings {
                frame_offset_x: self.offset_x,
                frame_offset_y: self.offset_y,
                tabs: TabSettings {
                    width: self.tab_width,
                    minimum_count: self.minimum_tabs,
                    maximum_gap: self.maximum_tab_gap,
                    score_to_half_depth: self.score_tabs,
                },
            },
            coordinates: CoordinateSettings {
                local_origin_enabled: self.local_offset_enabled,
                local_origin_x: self.local_offset_x,
                local_origin_y: self.local_offset_y,
                snap_to_geometry: true,
            },
            material: MaterialSettings {
                width: self.material_width,
                height: self.material_height,
                offset_x: self.material_offset_x,
                offset_y: self.material_offset_y,
                edge_margin_x: self.material_edge_margin_x,
                edge_margin_y: self.material_edge_margin_y,
            },
            display: DisplaySettings {
                background: ColorStyle { color: self.background_color },
                grid: GridStyle {
                    style: VisualStyle { visible: self.show_grid, color: self.grid_color },
                    label_color: self.grid_label_color,
                },
                axes: AxesStyle {
                    visible: self.show_axes,
                    x_color: self.axis_x_color,
                    y_color: self.axis_y_color,
                },
                local_axes: AxesStyle {
                    visible: true,
                    x_color: self.axis_x_color,
                    y_color: self.axis_y_color,
                },
                material: MaterialDisplaySettings {
                    outline: VisualStyle { visible: self.show_material, color: self.material_color },
                    safe_area: VisualStyle {
                        visible: self.show_safe_area,
                        color: self.safe_area_color,
                    },
                    margin_hatch: VisualStyle {
                        visible: self.show_margin_hatch,
                        color: self.margin_hatch_color,
                    },
                },
                source: SourceDisplaySettings {
                    toolpath: VisualStyle {
                        visible: self.show_toolpath,
                        color: self.toolpath_color,
                    },
                    rapid_moves: VisualStyle { visible: self.show_rapid, color: self.rapid_color },
                },
                frame: FrameDisplaySettings {
                    outline: VisualStyle { visible: self.show_frame, color: self.frame_color },
                    expanded_area: VisualStyle {
                        visible: self.show_expanded_frame,
                        color: self.expanded_frame_color,
                    },
                    tabs: VisualStyle { visible: self.show_tabs, color: self.tab_color },
                },
            },
            ..base
        }
    }

    /// Converts legacy values to the nested schema; every other field keeps
    /// its default (the runtime fields are populated by the caller).
    pub fn into_settings(self) -> (r: Settings)
        ensures
            exists|base: Settings| #[trigger] base.is_default() && r == self.nested(base),
    {
        let base = Settings::default();
        let ghost legacy = self;
        let local_x = self.axis_x_color.clone();
        let local_y = self.axis_y_color.clone();
        let r = Settings {
            calculation: CalculationSettings {
                frame_offset_x: self.offset_x,
                frame_offset_y: self.offset_y,
                tabs: TabSettings {
                    width: self.tab_width,
                    minimum_count: self.minimum_tabs,
                    maximum_gap: self.maximum_tab_gap,
                    score_to_half_depth: self.score_tabs,
                },
            },
            coordinates: CoordinateSettings {
                local_origin_enabled: self.local_offset_enabled,
                local_origin_x: self.local_offset_x,
                local_origin_y: self.local_offset_y,
                snap_to_geometry: true,
            },
            material: MaterialSettings {
                width: self.material_width,
                height: self.material_height,
                offset_x: self.material_offset_x,
                offset_y: self.material_offset_y,
                edge_margin_x: self.material_edge_margin_x,
                edge_margin_y: self.material_edge_margin_y,
            },
            display: DisplaySettings {
                background: ColorStyle { color: self.background_color },
                grid: GridStyle {
                    style: VisualStyle { visible: self.show_grid, color: self.grid_color },
                    label_color: self.grid_label_color,
                },
                axes: AxesStyle {
                    visible: self.show_axes,
                    x_color: self.axis_x_color,
                    y_color: self.axis_y_color,
                },
                local_axes: AxesStyle { visible: true, x_color: local_x, y_color: local_y },
                material: MaterialDisplaySettings {
                    outline: VisualStyle { visible: self.show_material, color: self.material_color },
                    safe_area: VisualStyle {
                        visible: self.show_safe_area,
                        color: self.safe_area_color,
                    },
                    margin_hatch: VisualStyle {
                        visible: self.show_margin_hatch,
                        color: self.margin_hatch_color,
                    },
                },
                source: SourceDisplaySettings {
                    toolpath: VisualStyle {
                        visible: self.show_toolpath,
                        color: self.toolpath_color,
                    },
                    rapid_moves: VisualStyle { visible: self.show_rapid, color: self.rapid_color },
                },
                frame: FrameDisplaySettings {
                    outline: VisualStyle { visible: self.show_frame, color: self.frame_color },
                    expanded_area: VisualStyle {
                        visible: self.show_expanded_frame,
                        color: self.expanded_frame_color,
                    },
                    tabs: VisualStyle { visible: self.show_tabs, color: self.tab_color },
                },
            },
            ..base
        };
        assert(r == legacy.nested(base));
        r
    }
}

/// `true`, the default of a missing visibility flag.
pub fn default_true() -> (b: bool)
    ensures
        b,
{
    true
}

/// The default frame offset, 10 mm.
pub fn default_offset() -> (v: i64)
    ensures
        v == 10_000_000,
{
    10_000_000
}

/// The default material width and height, 150 mm.
pub fn default_material_width() -> (v: i64)
    ensures
        v == 150_000_000,
{
    150_000_000
}

/// The default tab width, 3 mm.
pub fn default_tab_width() -> (v: i64)
    ensures
        v == 3_000_000,
{
    3_000_000
}

/// The default minimum number of tabs, three.
pub fn default_minimum_tabs() -> (v: usize)
    ensures
        v == 3,
{
    3
}

/// The default largest free distance between tabs, 20 mm.
pub fn default_maximum_tab_gap() -> (v: i64)
    ensures
        v == 20_000_000,
{
    20_000_000
}

/// The default material outline colour.
pub fn default_material_color() -> (s: String)
    ensures
        s@ == "#be64ff"@,
{
    "#be64ff".to_owned()
}

/// The default safe area colour.
pub fn default_safe_area_color() -> (s: String)
    ensures
        s@ == "#ff4646"@,
{
    "#ff4646".to_owned()
}

/// The default frame colour.
pub fn default_frame_color() -> (s: String)
    ensures
        s@ == "#ff4664"@,
{
    "#ff4664".to_owned()
}

/// The default background colour.
pub fn default_background_color() -> (s: String)
    ensures
        s@ == "#0e1116"@,
{
    "#0e1116".to_owned()
}

/// The default grid colour.
pub fn default_grid_color() -> (s: String)
    ensures
        s@ == "#2a303a"@,
{
    "#2a303a".to_owned()
}

/// The default grid label colour.
pub fn default_grid_label_color() -> (s: String)
    ensures
        s@ == "#96a0af"@,
{
    "#96a0af".to_owned()
}

/// The default X axis colour.
pub fn default_axis_x_color() -> (s: String)
    ensures
        s@ == "#dc4646"@,
{
    "#dc4646".to_owned()
}

/// The default Y axis colour.
pub fn default_axis_y_color() -> (s: String)
    ensures
        s@ == "#46d278"@,
{
    "#46d278".to_owned()
}

/// The default tool path colour.
pub fn default_toolpath_color() -> (s: String)
    ensures
        s@ == "#00d2ff"@,
{
    "#00d2ff".to_owned()
}

/// The default rapid move colour.
pub fn default_rapid_color() -> (s: String)
    ensures
        s@ == "#ffbe00"@,
{
    "#ffbe00".to_owned()
}

/// The default expanded frame colour.
pub fn default_expanded_frame_color() -> (s: String)
    ensures
        s@ == "#ffd200"@,
{
    "#ffd200".to_owned()
}

/// The default tab colour.
pub fn default_tab_color() -> (s: String)
    ensures
        s@ == "#ffdc46"@,
{
    "#ffdc46".to_owned()
}

/// The default margin hatching colour.
pub fn default_margin_hatch_color() -> (s: String)
    ensures
        s@ == "#ff4646"@,
{
    "#ff4646".to_owned()
}

/// Why settings could not be loaded or saved.
#[derive(Debug)]
pub enum SettingsError {
    Read(String),
    Parse(String),
    Serialize(String),
    Write(String),
}

impl SettingsError {
    /// The text shown for the error: what failed, a colon, and the cause.
    pub open spec fn spec_message(&self) -> Seq<char> {
        match self {
            SettingsError::Read(cause) => "Failed to read settings file: "@ + cause@,
            SettingsError::Parse(cause) => "Failed to parse settings file: "@ + cause@,
            SettingsError::Serialize(cause) => "Failed to serialize settings: "@ + cause@,
            SettingsError::Write(cause) => "Failed to write settings file: "@ + cause@,
        }
    }

    /// The text shown for the error: what failed, a colon, and the cause.
    pub fn message(&self) -> (m: String)
        ensures
            m@ == self.spec_message(),
    {
        let mut m = String::new();
        match self {
            SettingsError::Read(cause) => {
                push_str(&mut m, "Failed to read settings file: ");
                push_str(&mut m, cause.as_str());
            },
            SettingsError::Parse(cause) => {
                push_str(&mut m, "Failed to parse settings file: ");
                push_str(&mut m, cause.as_str());
            },
            SettingsError::Serialize(cause) => {
                push_str(&mut m, "Failed to serialize settings: ");
                push_str(&mut m, cause.as_str());
            },
            SettingsError::Write(cause) => {
                push_str(&mut m, "Failed to write settings file: ");
                push_str(&mut m, cause.as_str());
            },
        }
        m
    }
}

/// Rebuilding the persisted schema from freshly populated runtime fields
/// changes nothing: the two views agree after `populate_runtime`.
#[verifier::rlimit(60)]
pub proof fn law_sync_after_populate(s: Settings)
    ensures
        s.populated().synced() == s.populated(),
{
    let p = s.populated();
    let q = p.synced();
    assert(q.calculation.tabs == p.calculation.tabs);
    assert(q.calculation == p.calculation);
    assert(q.coordinates == p.coordinates);
    assert(q.material == p.material);
    assert(q.display.background == p.display.background);
    assert(q.display.grid.style == p.display.grid.style);
    assert(q.display.grid == p.display.grid);
    assert(q.display.axes == p.display.axes);
    assert(q.display.local_axes == p.display.local_axes);
    assert(q.display.material.outline == p.display.material.outline);
    assert(q.display.material.safe_area == p.display.material.safe_area);
    assert(q.display.material.margin_hatch == p.display.material.margin_hatch);
    assert(q.display.material == p.display.material);
    assert(q.display.source.toolpath == p.display.source.toolpath);
    assert(q.display.source.rapid_moves == p.display.source.rapid_moves);
    assert(q.display.source == p.display.source);
    assert(q.display.frame.outline == p.display.frame.outline);
    assert(q.display.frame.expanded_area == p.display.frame.expanded_area);
    assert(q.display.frame.tabs == p.display.frame.tabs);
    assert(q.display.frame == p.display.frame);
    assert(q.display == p.display);
    assert(q.machining == p.machining);
}

/// Populating the runtime fields from a freshly rebuilt schema changes
/// nothing: the two views agree after `sync_persisted`.
pub proof fn law_populate_after_sync(s: Settings)
    ensures
        s.synced().populated() == s.synced(),
{
}

/// The flat runtime fields of `s` hold the values of the legacy file `l`.
pub open spec fn carries_legacy(s: Settings, l: LegacySettings) -> bool {
    &&& s.offset_x == l.offset_x && s.offset_y == l.offset_y
    &&& s.local_offset_enabled == l.local_offset_enabled
    &&& s.local_offset_x == l.local_offset_x && s.local_offset_y == l.local_offset_y
    &&& s.material_width == l.material_width && s.material_height == l.material_height
    &&& s.material_offset_x == l.material_offset_x && s.material_offset_y == l.material_offset_y
    &&& s.material_edge_margin_x == l.material_edge_margin_x
    &&& s.material_edge_margin_y == l.material_edge_margin_y
    &&& s.show_grid == l.show_grid && s.show_axes == l.show_axes
    &&& s.show_material == l.show_material && s.show_safe_area == l.show_safe_area
    &&& s.show_margin_hatch == l.show_margin_hatch
    &&& s.material_color == l.material_color && s.safe_area_color == l.safe_area_color
    &&& s.frame_color == l.frame_color && s.background_color == l.background_color
    &&& s.grid_color == l.grid_color && s.grid_label_color == l.grid_label_color
    &&& s.axis_x_color == l.axis_x_color && s.axis_y_color == l.axis_y_color
    &&& s.toolpath_color == l.toolpath_color && s.rapid_color == l.rapid_color
    &&& s.expanded_frame_color == l.expanded_frame_color && s.tab_color == l.tab_color
    &&& s.margin_hatch_color == l.margin_hatch_color
    &&& s.show_toolpath == l.show_toolpath && s.show_rapid == l.show_rapid
    &&& s.show_expanded_frame == l.show_expanded_frame && s.show_frame == l.show_frame
    &&& s.show_tabs == l.show_tabs
    &&& s.tab_width == l.tab_width && s.minimum_tabs == l.minimum_tabs
    &&& s.maximum_tab_gap == l.maximum_tab_gap && s.score_tabs == l.score_tabs
}

/// A migrated legacy file keeps every value it held: once the runtime
/// fields are populated they carry the legacy values, and saving (which
/// rebuilds the nested schema from them) changes nothing.
pub proof fn law_migration_keeps_legacy_values(l: LegacySettings, base: Settings)
    ensures
        carries_legacy(l.nested(base).populated(), l),
        l.nested(base).populated().synced() == l.nested(base).populated(),
{
    law_sync_after_populate(l.nested(base));
}

} // verus!
