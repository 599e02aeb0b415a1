//! Configuration types whose fields the verified logic reads.
//!
//! The full application configuration also carries per-widget floating-point
//! styling (font sizes, opacities, thresholds, angles); that part lives with
//! the program around the library.
use vstd::prelude::*;

verus! {

/// Which CPU temperature reading the dashboard shows.
#[derive(Clone, Copy, Debug, PartialEq, Eq, Structural)]
pub enum CpuTemperatureSource {
    Auto,
    Core,
    Socket,
}

/// Which CPU clock reading the dashboard shows first.
#[derive(Clone, Copy, Debug, PartialEq, Eq, Structural)]
pub enum CpuClockSource {
    Average,
    Effective,
}

/// Physical orientation of the panel.
#[derive(Clone, Copy, Debug, PartialEq, Eq, Structural)]
pub enum Orientation {
    Portrait,
    ReversePortrait,
    Landscape,
    ReverseLandscape,
}

/// Where the background picture comes from.
#[derive(Clone, Copy, Debug, PartialEq, Eq, Structural)]
pub enum BackgroundSource {
    Colour,
    File,
    Folder,
}

/// How a background picture is fitted to the panel.
#[derive(Clone, Copy, Debug, PartialEq, Eq, Structural)]
pub enum BackgroundMode {
    Contain,
    Cover,
    Stretch,
    Centre,
}

/// What a widget shows.
#[derive(Clone, Copy, Debug, PartialEq, Eq, Structural, Hash)]
pub enum WidgetKind {
    CpuTemperature,
    CpuUsage,
    CpuClock,
    GpuTemperature,
    GpuUsage,
    GpuClock,
    GpuPower,
    RamUsage,
    VramUsage,
    DiskUsage,
    NetworkUpload,
    NetworkDownload,
    FanSpeed,
    Volume,
    WeatherTemperature,
    WeatherHumidity,
    WeatherWind,
    WeatherCondition,
    WeatherIcon,
    Clock,
    Date,
    Fps,
    Text,
    Gif,
    SuperWidget,
}

/// How a widget draws its value.
#[derive(Clone, Copy, Debug, PartialEq, Eq, Structural, Hash)]
pub enum WidgetRenderMode {
    Text,
    Bar,
    Circle,
    Graph,
}

/// The animation played when the shown screen changes.
#[derive(Clone, Copy, Debug, PartialEq, Eq, Structural)]
pub enum TransitionKind {
    /// Switch at once (`none` in saved configurations).
    Disabled,
    Fade,
    Slide,
    Dissolve,
    Glitch,
}

/// The panel and how to reach it.
#[derive(Clone, Debug)]
pub struct DisplayConfig {
    pub model: String,
    pub port: String,
    pub width: u32,
    pub height: u32,
    pub orientation: Orientation,
    pub brightness: u8,
}

/// The screen background.
#[derive(Clone, Debug)]
pub struct BackgroundConfig {
    pub source: BackgroundSource,
    pub path: Option<String>,
    pub folder: Option<String>,
    pub slideshow_interval_minutes: u64,
    pub mode: BackgroundMode,
    pub colour: String,
}

/// Editor colours.
#[derive(Clone, Debug)]
pub struct ThemeConfig {
    pub name: String,
    pub foreground: String,
    pub accent: String,
    pub panel: String,
}

impl Default for CpuTemperatureSource {
    fn default() -> (source: Self)
        ensures
            source == CpuTemperatureSource::Core,
    {
        CpuTemperatureSource::Core
    }
}

impl Default for CpuClockSource {
    fn default() -> (source: Self)
        ensures
            source == CpuClockSource::Average,
    {
        CpuClockSource::Average
    }
}

impl Default for Orientation {
    fn default() -> (orientation: Self)
        ensures
            orientation == Orientation::Landscape,
    {
        Orientation::Landscape
    }
}

impl Default for BackgroundSource {
    /// Configurations written before the slideshow existed only carry a
    /// `path`; defaulting to a file keeps them working.
    fn default() -> (source: Self)
        ensures
            source == BackgroundSource::File,
    {
        BackgroundSource::File
    }
}

impl Default for BackgroundMode {
    fn default() -> (mode: Self)
        ensures
            mode == BackgroundMode::Cover,
    {
        BackgroundMode::Cover
    }
}

impl Default for WidgetKind {
    fn default() -> (kind: Self)
        ensures
            kind == WidgetKind::Clock,
    {
        WidgetKind::Clock
    }
}

impl Default for WidgetRenderMode {
    fn default() -> (mode: Self)
        ensures
            mode == WidgetRenderMode::Text,
    {
        WidgetRenderMode::Text
    }
}

impl Default for DisplayConfig {
    fn default() -> (config: Self)
        ensures
            config.model@ == "Turing Smart Screen 3.5"@,
            config.port@ == "AUTO"@,
            config.width == 480,
            config.height == 320,
            config.orientation == Orientation::Landscape,
            config.brightness == 80,
    {
        DisplayConfig {
            model: String::from_str("Turing Smart Screen 3.5"),
            port: String::from_str("AUTO"),
            width: 480,
            height: 320,
            orientation: Orientation::Landscape,
            brightness: 80,
        }
    }
}

impl Default for BackgroundConfig {
    fn default() -> (config: Self)
        ensures
            config.source == BackgroundSource::Colour,
            config.path is None,
            config.folder is None,
            config.slideshow_interval_minutes == 5,
            config.mode == BackgroundMode::Cover,
            config.colour@ == "#10151d"@,
    {
        BackgroundConfig {
            source: BackgroundSource::Colour,
            path: None,
            folder: None,
            slideshow_interval_minutes: 5,
            mode: BackgroundMode::Cover,
            colour: String::from_str("#10151d"),
        }
    }
}

impl Default for ThemeConfig {
    fn default() -> (theme: Self)
        ensures
            theme.name@ == "Midnight"@,
            theme.foreground@ == "#f3f7ff"@,
            theme.accent@ == "#64d8cb"@,
            theme.panel@ == "#18212d"@,
    {
        ThemeConfig {
            name: String::from_str("Midnight"),
            foreground: String::from_str("#f3f7ff"),
            accent: String::from_str("#64d8cb"),
            panel: String::from_str("#18212d"),
        }
    }
}

} // verus!
