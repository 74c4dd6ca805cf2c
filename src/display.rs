use vstd::prelude::*;

verus! {

pub type InputFormat = VCOSInputFormat;

/// Stereoscopic layout of a display.
#[derive(Clone, Copy, Debug, PartialEq, Eq, Structural)]
pub enum Format3d {
    /// The default.
    Unsupported,
    /// For autostereoscopic displays.
    Interleaved,
    /// Side by side, full width.
    SbsFullAuto,
    /// Side by side, half width, horizontal subsampling.
    SbsHalfHoriz,
    /// Top and bottom.
    TbHalf,
    Max,
}

/// Output dithering of a display.
#[derive(Clone, Copy, Debug, PartialEq, Eq, Structural)]
pub enum Dither {
    /// The default.
    NoDither,
    Rgb666,
    Rgb565,
    Rgb555,
    Max,
}

/// Physical interface of a display.
#[derive(Clone, Copy, Debug, PartialEq, Eq, Structural)]
pub enum Interface {
    Min,
    Smi,
    Dpi,
    Dsi,
    Lvds,
    Max,
}

/// Pixel format that a display takes in.
#[derive(Clone, Copy, Debug, PartialEq, Eq, Structural)]
pub enum VCOSInputFormat {
    Invalid,
    Rgb888,
    Rgb565,
}

impl Format3d {
    pub open spec fn spec_code(self) -> u32 {
        match self {
            Format3d::Unsupported => 0,
            Format3d::Interleaved => 1,
            Format3d::SbsFullAuto => 2,
            Format3d::SbsHalfHoriz => 3,
            Format3d::TbHalf => 4,
            Format3d::Max => 5,
        }
    }

    /// The native numeric value.
    pub fn code(&self) -> (r: u32)
        ensures
            r == self.spec_code(),
    {
        match self {
            Format3d::Unsupported => 0,
            Format3d::Interleaved => 1,
            Format3d::SbsFullAuto => 2,
            Format3d::SbsHalfHoriz => 3,
            Format3d::TbHalf => 4,
            Format3d::Max => 5,
        }
    }
}

impl Dither {
    pub open spec fn spec_code(self) -> u32 {
        match self {
            Dither::NoDither => 0,
            Dither::Rgb666 => 1,
            Dither::Rgb565 => 2,
            Dither::Rgb555 => 3,
            Dither::Max => 4,
        }
    }

    /// The native numeric value.
    pub fn code(&self) -> (r: u32)
        ensures
            r == self.spec_code(),
    {
        match self {
            Dither::NoDither => 0,
            Dither::Rgb666 => 1,
            Dither::Rgb565 => 2,
            Dither::Rgb555 => 3,
            Dither::Max => 4,
        }
    }
}

impl Interface {
    pub open spec fn spec_code(self) -> u32 {
        match self {
            Interface::Min => 0,
            Interface::Smi => 1,
            Interface::Dpi => 2,
            Interface::Dsi => 3,
            Interface::Lvds => 4,
            Interface::Max => 5,
        }
    }

    /// The native numeric value.
    pub fn code(&self) -> (r: u32)
        ensures
            r == self.spec_code(),
    {
        match self {
            Interface::Min => 0,
            Interface::Smi => 1,
            Interface::Dpi => 2,
            Interface::Dsi => 3,
            Interface::Lvds => 4,
            Interface::Max => 5,
        }
    }
}

impl VCOSInputFormat {
    pub open spec fn spec_code(self) -> u32 {
        match self {
            VCOSInputFormat::Invalid => 0,
            VCOSInputFormat::Rgb888 => 1,
            VCOSInputFormat::Rgb565 => 2,
        }
    }

    /// The native numeric value.
    pub fn code(&self) -> (r: u32)
        ensures
            r == self.spec_code(),
    {
        match self {
            VCOSInputFormat::Invalid => 0,
            VCOSInputFormat::Rgb888 => 1,
            VCOSInputFormat::Rgb565 => 2,
        }
    }
}

/// Description of a physical display.
#[derive(Clone, Copy, Debug, PartialEq, Eq, Structural)]
pub struct Info {
    pub type_: Interface,
    pub width: u32,
    pub height: u32,
    pub input_format: InputFormat,
    pub interlaced: u32,
    pub output_dither: Dither,
    pub pixel_freq: u32,
    pub line_rate: u32,
    pub format_3d: Format3d,
    pub use_pixelvalve_1: u32,
    pub dsi_video_mode: u32,
    pub hvs_channel: u32,
}

} // verus!
