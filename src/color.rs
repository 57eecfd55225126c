//! The named colors of the renderer and their defaults.
use vstd::prelude::*;

verus! {

/// An RGBA color, eight bits per channel.
#[derive(Clone, Copy, Debug, PartialEq, Eq, Structural)]
pub struct Color {
    pub r: u8,
    pub g: u8,
    pub b: u8,
    pub a: u8,
}

/// The roles a theme assigns colors to.
#[derive(Clone, Copy, Debug, PartialEq, Eq, Structural)]
pub enum ColorKey {
    BorderIntersection,
    StopSignIntersection,
    TrafficSignalIntersection,
    SidewalkCorner,
    Crosswalk,
    TurnsProtected,
    TurnsYielding,
    SignalOvertime,
    SignalEditorPanel,
    CurrentCycleInPanel,
}

pub open spec fn rgba(r: u8, g: u8, b: u8, a: u8) -> Color {
    Color { r, g, b, a }
}

/// The color each role has unless a theme overrides it.
pub open spec fn spec_default_color(key: ColorKey) -> Color {
    match key {
        ColorKey::BorderIntersection => rgba(50, 205, 50, 255),
        ColorKey::StopSignIntersection => rgba(153, 153, 153, 255),
        ColorKey::TrafficSignalIntersection => rgba(102, 102, 102, 255),
        ColorKey::SidewalkCorner => rgba(179, 179, 179, 255),
        ColorKey::Crosswalk => rgba(255, 255, 255, 255),
        ColorKey::TurnsProtected => rgba(0, 255, 0, 255),
        ColorKey::TurnsYielding => rgba(255, 105, 180, 204),
        ColorKey::SignalOvertime => rgba(255, 0, 0, 255),
        ColorKey::SignalEditorPanel => rgba(0, 0, 0, 242),
        ColorKey::CurrentCycleInPanel => rgba(0, 0, 255, 242),
    }
}

impl ColorKey {
    /// The default color of this role.
    pub fn default_color(&self) -> (r: Color)
        ensures
            r == spec_default_color(*self),
    {
        match self {
            ColorKey::BorderIntersection => Color { r: 50, g: 205, b: 50, a: 255 },
            ColorKey::StopSignIntersection => Color { r: 153, g: 153, b: 153, a: 255 },
            ColorKey::TrafficSignalIntersection => Color { r: 102, g: 102, b: 102, a: 255 },
            ColorKey::SidewalkCorner => Color { r: 179, g: 179, b: 179, a: 255 },
            ColorKey::Crosswalk => Color { r: 255, g: 255, b: 255, a: 255 },
            ColorKey::TurnsProtected => Color { r: 0, g: 255, b: 0, a: 255 },
            ColorKey::TurnsYielding => Color { r: 255, g: 105, b: 180, a: 204 },
            ColorKey::SignalOvertime => Color { r: 255, g: 0, b: 0, a: 255 },
            ColorKey::SignalEditorPanel => Color { r: 0, g: 0, b: 0, a: 242 },
            ColorKey::CurrentCycleInPanel => Color { r: 0, g: 0, b: 255, a: 242 },
        }
    }
}

/// The stable name under which a theme lists each role.
pub open spec fn spec_key_name(key: ColorKey) -> Seq<char> {
    match key {
        ColorKey::BorderIntersection => "border intersection"@,
        ColorKey::StopSignIntersection => "stop sign intersection"@,
        ColorKey::TrafficSignalIntersection => "traffic signal intersection"@,
        ColorKey::SidewalkCorner => "sidewalk corner"@,
        ColorKey::Crosswalk => "crosswalk"@,
        ColorKey::TurnsProtected => "turns protected by traffic signal right now"@,
        ColorKey::TurnsYielding => "turns allowed with yielding by traffic signal right now"@,
        ColorKey::SignalOvertime => "signal overtime"@,
        ColorKey::SignalEditorPanel => "signal editor panel"@,
        ColorKey::CurrentCycleInPanel => "current cycle in signal editor panel"@,
    }
}

impl ColorKey {
    /// The stable name of this role.
    pub fn name(&self) -> (r: &'static str)
        ensures
            r@ == spec_key_name(*self),
    {
        match self {
            ColorKey::BorderIntersection => "border intersection",
            ColorKey::StopSignIntersection => "stop sign intersection",
            ColorKey::TrafficSignalIntersection => "traffic signal intersection",
            ColorKey::SidewalkCorner => "sidewalk corner",
            ColorKey::Crosswalk => "crosswalk",
            ColorKey::TurnsProtected => "turns protected by traffic signal right now",
            ColorKey::TurnsYielding => "turns allowed with yielding by traffic signal right now",
            ColorKey::SignalOvertime => "signal overtime",
            ColorKey::SignalEditorPanel => "signal editor panel",
            ColorKey::CurrentCycleInPanel => "current cycle in signal editor panel",
        }
    }
}

/// A fill: either a color given by the caller or a themed role.
#[derive(Clone, Copy, Debug, PartialEq, Eq, Structural)]
pub enum Paint {
    Custom(Color),
    Themed(ColorKey),
}

} // verus!
