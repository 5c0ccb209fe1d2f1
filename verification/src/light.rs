//! The status LED's colors: fixed intensities for the handful of states the
//! device shows.

use vstd::prelude::*;

verus! {

/// The default intensity of a lit channel.
pub const LIGHT_INTENSITY_DEFAULT: u8 = 32;

/// An RGB color for the status LED.
#[derive(Clone, Copy, Debug, PartialEq, Eq, Structural)]
pub struct LightColor {
    pub r: u8,
    pub g: u8,
    pub b: u8,
}

impl Default for LightColor {
    /// All channels dark.
    fn default() -> (c: Self)
        ensures
            c == (LightColor { r: 0u8, g: 0u8, b: 0u8 }),
    {
        LightColor { r: 0, g: 0, b: 0 }
    }
}

impl LightColor {
    /// All channels dark.
    pub fn off() -> (c: Self)
        ensures
            c == (LightColor { r: 0u8, g: 0u8, b: 0u8 }),
    {
        LightColor::default()
    }

    /// Red at the default intensity.
    pub fn red() -> (c: Self)
        ensures
            c == (LightColor { r: LIGHT_INTENSITY_DEFAULT, g: 0u8, b: 0u8 }),
    {
        LightColor::default().with_red(LIGHT_INTENSITY_DEFAULT)
    }

    /// Green at the default intensity.
    pub fn green() -> (c: Self)
        ensures
            c == (LightColor { r: 0u8, g: LIGHT_INTENSITY_DEFAULT, b: 0u8 }),
    {
        LightColor::default().with_green(LIGHT_INTENSITY_DEFAULT)
    }

    /// Blue at the default intensity.
    pub fn blue() -> (c: Self)
        ensures
            c == (LightColor { r: 0u8, g: 0u8, b: LIGHT_INTENSITY_DEFAULT }),
    {
        LightColor::default().with_blue(LIGHT_INTENSITY_DEFAULT)
    }

    /// Amber: full red with a smaller green component.
    pub fn amber() -> (c: Self)
        ensures
            c == (LightColor { r: LIGHT_INTENSITY_DEFAULT, g: 16u8, b: 0u8 }),
    {
        LightColor::default().with_red(LIGHT_INTENSITY_DEFAULT).with_green(16)
    }

    /// This color with the red channel replaced.
    pub fn with_red(self, r: u8) -> (c: Self)
        ensures
            c == (LightColor { r, ..self }),
    {
        LightColor { r, ..self }
    }

    /// This color with the green channel replaced.
    pub fn with_green(self, g: u8) -> (c: Self)
        ensures
            c == (LightColor { g, ..self }),
    {
        LightColor { g, ..self }
    }

    /// This color with the blue channel replaced.
    pub fn with_blue(self, b: u8) -> (c: Self)
        ensures
            c == (LightColor { b, ..self }),
    {
        LightColor { b, ..self }
    }
}

} // verus!
