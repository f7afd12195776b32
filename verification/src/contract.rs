//! The JSON contract's plain data: what a capture targeted, how detailed its
//! images are, and the records the library fills in. The application mirrors
//! these types with their wire (serde) derives.

use vstd::prelude::*;

verus! {

/// What a capture is aimed at.
#[derive(Debug, Clone, Copy, PartialEq, Eq, Structural)]
pub enum CaptureTarget {
    Active,
    Screen,
    Window,
    Region,
}

impl CaptureTarget {
    /// The wire name of the target (`camelCase` of the variant).
    pub open spec fn spec_label(self) -> Seq<char> {
        match self {
            CaptureTarget::Active => "active"@,
            CaptureTarget::Screen => "screen"@,
            CaptureTarget::Window => "window"@,
            CaptureTarget::Region => "region"@,
        }
    }

    /// The wire name of the target.
    pub fn label(self) -> (r: &'static str)
        ensures
            r@ == self.spec_label(),
    {
        match self {
            CaptureTarget::Active => "active",
            CaptureTarget::Screen => "screen",
            CaptureTarget::Window => "window",
            CaptureTarget::Region => "region",
        }
    }
}

/// How much detail an attached image asks a model to look at.
#[derive(Debug, Clone, Copy, PartialEq, Eq, Structural)]
pub enum ImageDetail {
    Auto,
    Low,
    High,
    Original,
}

impl ImageDetail {
    /// The wire name of the detail level.
    pub open spec fn spec_label(self) -> Seq<char> {
        match self {
            ImageDetail::Auto => "auto"@,
            ImageDetail::Low => "low"@,
            ImageDetail::High => "high"@,
            ImageDetail::Original => "original"@,
        }
    }

    /// The wire name of the detail level (what the text form prints).
    pub fn label(self) -> (r: &'static str)
        ensures
            r@ == self.spec_label(),
    {
        match self {
            ImageDetail::Auto => "auto",
            ImageDetail::Low => "low",
            ImageDetail::High => "high",
            ImageDetail::Original => "original",
        }
    }
}

/// One image file a command produced.
#[derive(Debug, Clone)]
pub struct ImageInfo {
    pub path: String,
    pub width: Option<u32>,
    pub height: Option<u32>,
    pub bytes: u64,
    pub mime: String,
    pub detail: ImageDetail,
}

/// Accessible text captured next to an image.
#[derive(Debug, Clone)]
pub struct TextInfo {
    pub available: bool,
    pub path: Option<String>,
    pub bytes: u64,
    pub source: Option<String>,
}

impl Default for TextInfo {
    fn default() -> (r: Self)
        ensures
            !r.available && r.path is None && r.bytes == 0 && r.source is None,
    {
        TextInfo { available: false, path: None, bytes: 0, source: None }
    }
}

/// One palette of the backdrop menu.
#[derive(Debug, Clone)]
pub struct PaletteOption {
    pub name: String,
    /// `gradient`, `space`, `pattern`, `sky` or `terrain`. Second axes only
    /// apply to their own family.
    pub kind: String,
}

/// Every backdrop choice, for menus and for anything building a picker UI.
#[derive(Debug, Clone)]
pub struct StyleOptions {
    pub palettes: Vec<PaletteOption>,
    pub scenes: Vec<String>,
    pub motifs: Vec<String>,
    pub skies: Vec<String>,
    pub terrains: Vec<String>,
}

/// A video file a command produced.
#[derive(Debug, Clone)]
pub struct VideoInfo {
    pub path: String,
    pub bytes: u64,
    pub mime: String,
}

/// The capture backend that served a request.
#[derive(Debug, Clone)]
pub struct BackendInfo {
    pub name: String,
    pub strategy: String,
}

/// A window's place on screen.
#[derive(Debug, Clone, Copy, PartialEq, Eq, Structural)]
pub struct Geometry {
    pub x: i32,
    pub y: i32,
    pub width: u32,
    pub height: u32,
    pub screen: Option<i32>,
}

/// One desktop window.
#[derive(Debug, Clone)]
pub struct WindowInfo {
    pub id: Option<String>,
    pub title: Option<String>,
    pub app_name: Option<String>,
    pub pid: Option<u32>,
    pub geometry: Option<Geometry>,
}

/// Result of `cloche list-windows`.
#[derive(Debug, Clone)]
pub struct WindowList {
    pub ok: bool,
    pub backend: Option<BackendInfo>,
    pub windows: Vec<WindowInfo>,
    pub warnings: Vec<String>,
    pub errors: Vec<String>,
}

/// The desktop session a report describes.
#[derive(Debug, Clone)]
pub struct SessionInfo {
    pub xdg_session_type: Option<String>,
    pub wayland_display: Option<String>,
    pub display: Option<String>,
    pub current_desktop: Option<String>,
    pub desktop_session: Option<String>,
}

/// Whether a helper program is installed.
#[derive(Debug, Clone)]
pub struct HelperStatus {
    pub name: String,
    pub available: bool,
    pub path: Option<String>,
}

/// Whether a capability works in this session.
#[derive(Debug, Clone)]
pub struct CapabilityStatus {
    pub name: String,
    pub available: bool,
    pub detail: String,
}

/// Result of `cloche doctor`.
#[derive(Debug, Clone)]
pub struct DoctorReport {
    pub ok: bool,
    pub version: String,
    pub session: SessionInfo,
    pub helpers: Vec<HelperStatus>,
    pub capabilities: Vec<CapabilityStatus>,
    pub warnings: Vec<String>,
}

} // verus!
