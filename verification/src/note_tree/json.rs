//! The JSON documents of a note's metadata.

use vstd::prelude::*;
use crate::id::LayerId;
use crate::id::PenId;
use crate::json::Dimensions;
use crate::json::Layer;
use crate::scalar::Scalar;
use std::collections::HashMap;

verus! {

/// The pens of a note and what they were last set to.
#[derive(Clone, Debug, PartialEq)]
pub struct PenSettings {
    /// An ARGB colour.
    pub fill_color: u32,
    /// An ARGB colour.
    pub graphics_shape_color: u32,
    pub graphics_shape_type: u8,
    pub normal_pen_shape_type: u8,
    pub pen_line_style: PenLineStyle,
    pub pen_width_map: HashMap<u8, Scalar>,
    pub quick_pen_list: QuickPenList,
    pub shape_line_style: PenLineStyle,
}

/// The line style of a pen.
#[derive(Clone, Debug, PartialEq)]
pub struct PenLineStyle {
    pub line_style: LineStyle,
}

/// How a line is dashed.
#[derive(Clone, Debug, PartialEq)]
pub struct LineStyle {
    pub phase: Scalar,
    pub type_: u8,
}

/// The pens of the quick-access bar.
#[derive(Clone, Debug, PartialEq)]
pub struct QuickPenList {
    pub quick_pens: Vec<QuickPen>,
    pub selected_id: PenId,
}

/// One pen of the quick-access bar.
#[derive(Clone, Debug, PartialEq)]
pub struct QuickPen {
    /// An ARGB colour.
    pub color: u32,
    pub id: PenId,
    pub type_: u8,
    pub width: Scalar,
}

/// How the canvas of a note was last shown.
#[derive(Clone, Debug, PartialEq)]
pub struct CanvasState {
    pub canvas_expand_type: String,
    pub cover_page_id: String,
    pub default_page_rect: Dimensions,
    /// By the 128-bit value of the page id.
    pub page_info_map: HashMap<u128, PageInfo>,
    pub zoom_info: ZoomInfo,
}

/// Size and layers of one page.
#[derive(Clone, Debug, PartialEq)]
pub struct PageInfo {
    pub current_layer_id: LayerId,
    pub height: u32,
    pub last_modify_time: u64,
    pub layer_count: u32,
    pub layer_list: Vec<Layer>,
    pub width: u32,
}

/// Zoom and viewport of the canvas.
#[derive(Clone, Debug, PartialEq)]
pub struct ZoomInfo {
    pub fit_to_screen: bool,
    pub scale_type: u8,
    pub view_port_height: Scalar,
    pub view_port_pos: ViewPortPos,
    pub view_port_width: Scalar,
    pub viewport_scale: Scalar,
}

/// Where the viewport lies.
#[derive(Clone, Debug, PartialEq)]
pub struct ViewPortPos {
    pub is_empty: bool,
    pub pressure: Scalar,
    pub size: Scalar,
    pub tilt_x: i32,
    pub tilt_y: i32,
    pub timestamp: u64,
    pub x: Scalar,
    pub y: Scalar,
}

/// The backgrounds of a note and of its pages.
#[derive(Clone, Debug, PartialEq)]
pub struct BackgroundConfig {
    pub background_config: BackgroundSettings,
    pub document_background: DocBackground,
    /// By the 128-bit value of the page id.
    pub page_backgrounds: HashMap<u128, PageBackground>,
    pub use_document_background: bool,
}

/// How backgrounds are applied.
#[derive(Clone, Debug, PartialEq)]
pub struct BackgroundSettings {
    pub apply_all_page: bool,
    pub as_default: bool,
    pub canvas_auto_expand: bool,
    pub scale_type: u8,
}

/// The background of a whole note.
#[derive(Clone, Debug, PartialEq)]
pub struct DocBackground {
    pub cloud: bool,
    pub global: bool,
    pub height: Scalar,
    pub res_index: u32,
    pub type_: u32,
    pub visible: bool,
    pub width: Scalar,
}

/// The background of one page.
#[derive(Clone, Debug, PartialEq)]
pub struct PageBackground {
    pub cloud: bool,
    pub global: bool,
    pub height: Scalar,
    pub res_id: String,
    pub res_index: u32,
    pub title: String,
    pub type_: u32,
    pub value: String,
    pub visible: bool,
    pub width: Scalar,
}

/// The device that wrote a note.
#[derive(Clone, Debug, PartialEq)]
pub struct DeviceInfo {
    pub device_name: String,
    pub size: DeviceDimensions,
}

/// The size of a device's screen.
#[derive(Clone, Debug, PartialEq)]
pub struct DeviceDimensions {
    pub width: Scalar,
    pub height: Scalar,
}

/// A list of pages, by the text of their ids.
#[derive(Clone, Debug, PartialEq)]
pub struct PageNameList {
    pub page_name_list: Vec<String>,
}

} // verus!
