use vstd::prelude::*;

verus! {

/// Bayer raw formats; the native value equals the register bits.
#[derive(Clone, Copy, Debug, PartialEq, Eq, Structural)]
pub enum ImageBayerFormat {
    Raw6,
    Raw7,
    Raw8,
    Raw10,
    Raw12,
    Raw14,
    Raw16,
    Raw10_8,
    Raw12_8,
    Raw14_8,
    Raw10L,
    Raw12L,
    Raw14L,
    Raw16BigEndian,
    Raw4,
}

impl ImageBayerFormat {
    pub open spec fn spec_code(self) -> u32 {
        match self {
            ImageBayerFormat::Raw6 => 0,
            ImageBayerFormat::Raw7 => 1,
            ImageBayerFormat::Raw8 => 2,
            ImageBayerFormat::Raw10 => 3,
            ImageBayerFormat::Raw12 => 4,
            ImageBayerFormat::Raw14 => 5,
            ImageBayerFormat::Raw16 => 6,
            ImageBayerFormat::Raw10_8 => 7,
            ImageBayerFormat::Raw12_8 => 8,
            ImageBayerFormat::Raw14_8 => 9,
            ImageBayerFormat::Raw10L => 11,
            ImageBayerFormat::Raw12L => 12,
            ImageBayerFormat::Raw14L => 13,
            ImageBayerFormat::Raw16BigEndian => 14,
            ImageBayerFormat::Raw4 => 15,
        }
    }

    /// The native numeric value.
    pub fn code(&self) -> (r: u32)
        ensures
            r == self.spec_code(),
    {
        match self {
            ImageBayerFormat::Raw6 => 0,
            ImageBayerFormat::Raw7 => 1,
            ImageBayerFormat::Raw8 => 2,
            ImageBayerFormat::Raw10 => 3,
            ImageBayerFormat::Raw12 => 4,
            ImageBayerFormat::Raw14 => 5,
            ImageBayerFormat::Raw16 => 6,
            ImageBayerFormat::Raw10_8 => 7,
            ImageBayerFormat::Raw12_8 => 8,
            ImageBayerFormat::Raw14_8 => 9,
            ImageBayerFormat::Raw10L => 11,
            ImageBayerFormat::Raw12L => 12,
            ImageBayerFormat::Raw14L => 13,
            ImageBayerFormat::Raw16BigEndian => 14,
            ImageBayerFormat::Raw4 => 15,
        }
    }
}

/// Order of the colour sites in a Bayer mosaic.
#[derive(Clone, Copy, Debug, PartialEq, Eq, Structural)]
pub enum ImageBayerOrder {
    RGGB,
    GBRG,
    BGGR,
    GRBG,
}

impl ImageBayerOrder {
    pub open spec fn spec_code(self) -> u32 {
        match self {
            ImageBayerOrder::RGGB => 0,
            ImageBayerOrder::GBRG => 1,
            ImageBayerOrder::BGGR => 2,
            ImageBayerOrder::GRBG => 3,
        }
    }

    /// The native numeric value.
    pub fn code(&self) -> (r: u32)
        ensures
            r == self.spec_code(),
    {
        match self {
            ImageBayerOrder::RGGB => 0,
            ImageBayerOrder::GBRG => 1,
            ImageBayerOrder::BGGR => 2,
            ImageBayerOrder::GRBG => 3,
        }
    }
}

/// Orientation of an image: bit 0 mirrors, bit 1 turns by 180 degrees and
/// bit 2 transposes.
#[derive(Clone, Copy, Debug, PartialEq, Eq, Structural)]
pub enum ImageTransform {
    Rot0,
    MirrorRot0,
    MirrorRot180,
    Rot180,
    MirrorRot90,
    Rot270,
    Rot90,
    MirrorRot270,
}

impl ImageTransform {
    pub open spec fn spec_code(self) -> u32 {
        match self {
            ImageTransform::Rot0 => 0,
            ImageTransform::MirrorRot0 => 1,
            ImageTransform::MirrorRot180 => 2,
            ImageTransform::Rot180 => 3,
            ImageTransform::MirrorRot90 => 4,
            ImageTransform::Rot270 => 5,
            ImageTransform::Rot90 => 6,
            ImageTransform::MirrorRot270 => 7,
        }
    }

    /// The native numeric value.
    pub fn code(&self) -> (r: u32)
        ensures
            r == self.spec_code(),
    {
        match self {
            ImageTransform::Rot0 => 0,
            ImageTransform::MirrorRot0 => 1,
            ImageTransform::MirrorRot180 => 2,
            ImageTransform::Rot180 => 3,
            ImageTransform::MirrorRot90 => 4,
            ImageTransform::Rot270 => 5,
            ImageTransform::Rot90 => 6,
            ImageTransform::MirrorRot270 => 7,
        }
    }
}

/// Pixel format of a resource. `Min`, `Max` and `ForceEnum16Bit` are range
/// markers of the native enum, not formats.
#[derive(Clone, Copy, Debug, PartialEq, Eq, Structural)]
pub enum ImageType {
    Min,
    Rgb565,
    OneBpp,
    Yuv420,
    FortyEightBpp,
    Rgb888,
    EightBpp,
    /// 4bpp palettised image
    FourBpp,
    /// A separated format of 16 colour/light shorts followed by 16 z values
    ThreeD32,
    /// 16 colours followed by 16 z values
    ThreeD32B,
    /// A separated format of 16 material/colour/light shorts followed by 16 z values
    ThreeD32Mat,
    /// 32 bit format containing 18 bits of 6.6.6 RGB, 9 bits per short
    Rgb2x9,
    /// 32-bit format holding 18 bits of 6.6.6 RGB
    Rgb666,
    /// 4bpp palettised image with embedded palette
    Pal4Obsolete,
    /// 8bpp palettised image with embedded palette
    Pal8Obsolete,
    /// RGB888 with an alpha byte after each pixel
    Rgba32,
    /// a line of Y (32-byte padded), a line of U (16-byte padded), and a line of V (16-byte padded)
    Yuv422,
    /// RGB565 with a transparent patch
    Rgba565,
    /// Compressed (4444) version of RGBA32
    Rgba16,
    /// VCIII codec format
    YuvUv,
    /// VCIII T-format RGBA8888
    TfRgba32,
    /// VCIII T-format RGBx8888
    TfRgbx32,
    /// VCIII T-format float
    TfFloat,
    /// VCIII T-format RGBA4444
    TfRgba16,
    /// VCIII T-format RGB5551
    TfRgba5551,
    /// VCIII T-format RGB565
    TfRgb565,
    /// VCIII T-format 8-bit luma and 8-bit alpha
    TfYa88,
    /// VCIII T-format 8 bit generic sample
    TfByte,
    /// VCIII T-format 8-bit palette
    TfPal8,
    /// VCIII T-format 4-bit palette
    TfPal4,
    /// VCIII T-format Ericsson Texture Compressed
    TfEtc1,
    /// RGB888 with R & B swapped
    Bgr888,
    /// RGB888 with R & B swapped, but with no pitch, i.e. no padding after each row of pixels
    Bgr888Np,
    /// Bayer image, extra defines which variant is being used
    Bayer,
    /// General wrapper for codec images e.g. JPEG from camera
    Codec,
    /// VCIII codec format
    YuvUv32,
    /// VCIII T-format 8-bit luma
    TfY8,
    /// VCIII T-format 8-bit alpha
    TfA8,
    /// VCIII T-format 16-bit generic sample
    TfShort,
    /// VCIII T-format 1bpp black/white
    Tf1Bpp,
    OpenGl,
    /// VCIII-B0 HVS YUV 4:4:4 interleaved samples
    Yuv444I,
    /// Y, U, & V planes separately (YUV422 has them interleaved on a per line basis)
    Yuv422Planar,
    /// 32bpp with 8bit alpha at MS byte, with R, G, B (LS byte)
    Argb8888,
    /// 32bpp with 8bit unused at MS byte, with R, G, B (LS byte)
    Xrgb8888,
    /// interleaved 8 bit samples of Y, U, Y, V
    Yuv422YUYV,
    /// interleaved 8 bit samples of Y, V, Y, U
    Yuv422YVYU,
    /// interleaved 8 bit samples of U, Y, V, Y
    Yuv422UYVY,
    /// interleaved 8 bit samples of V, Y, U, Y
    Yuv422VYUY,
    /// 32bpp like RGBA32 but with unused alpha
    Rgbx32,
    /// 32bpp, corresponding to RGBA with unused alpha
    Rgbx8888,
    /// 32bpp, corresponding to BGRA with unused alpha
    Bgrx8888,
    /// Y as a plane, then UV byte interleaved in plane with with same pitch, half height
    Yuv420Sp,
    /// Y, U, & V planes separately 4:4:4
    Yuv444Planar,
    /// T-format 8-bit U - same as TF_Y8 buf from U plane
    TfU8,
    /// T-format 8-bit U - same as TF_Y8 buf from V plane
    TfV8,
    Max,
    ForceEnum16Bit,
}

impl ImageType {
    pub open spec fn spec_code(self) -> u32 {
        match self {
            ImageType::Min => 0,
            ImageType::Rgb565 => 1,
            ImageType::OneBpp => 2,
            ImageType::Yuv420 => 3,
            ImageType::FortyEightBpp => 4,
            ImageType::Rgb888 => 5,
            ImageType::EightBpp => 6,
            ImageType::FourBpp => 7,
            ImageType::ThreeD32 => 8,
            ImageType::ThreeD32B => 9,
            ImageType::ThreeD32Mat => 10,
            ImageType::Rgb2x9 => 11,
            ImageType::Rgb666 => 12,
            ImageType::Pal4Obsolete => 13,
            ImageType::Pal8Obsolete => 14,
            ImageType::Rgba32 => 15,
            ImageType::Yuv422 => 16,
            ImageType::Rgba565 => 17,
            ImageType::Rgba16 => 18,
            ImageType::YuvUv => 19,
            ImageType::TfRgba32 => 20,
            ImageType::TfRgbx32 => 21,
            ImageType::TfFloat => 22,
            ImageType::TfRgba16 => 23,
            ImageType::TfRgba5551 => 24,
            ImageType::TfRgb565 => 25,
            ImageType::TfYa88 => 26,
            ImageType::TfByte => 27,
            ImageType::TfPal8 => 28,
            ImageType::TfPal4 => 29,
            ImageType::TfEtc1 => 30,
            ImageType::Bgr888 => 31,
            ImageType::Bgr888Np => 32,
            ImageType::Bayer => 33,
            ImageType::Codec => 34,
            ImageType::YuvUv32 => 35,
            ImageType::TfY8 => 36,
            ImageType::TfA8 => 37,
            ImageType::TfShort => 38,
            ImageType::Tf1Bpp => 39,
            ImageType::OpenGl => 40,
            ImageType::Yuv444I => 41,
            ImageType::Yuv422Planar => 42,
            ImageType::Argb8888 => 43,
            ImageType::Xrgb8888 => 44,
            ImageType::Yuv422YUYV => 45,
            ImageType::Yuv422YVYU => 46,
            ImageType::Yuv422UYVY => 47,
            ImageType::Yuv422VYUY => 48,
            ImageType::Rgbx32 => 49,
            ImageType::Rgbx8888 => 50,
            ImageType::Bgrx8888 => 51,
            ImageType::Yuv420Sp => 52,
            ImageType::Yuv444Planar => 53,
            ImageType::TfU8 => 54,
            ImageType::TfV8 => 55,
            ImageType::Max => 56,
            ImageType::ForceEnum16Bit => 65535,
        }
    }

    /// The native numeric value.
    pub fn code(&self) -> (r: u32)
        ensures
            r == self.spec_code(),
    {
        match self {
            ImageType::Min => 0,
            ImageType::Rgb565 => 1,
            ImageType::OneBpp => 2,
            ImageType::Yuv420 => 3,
            ImageType::FortyEightBpp => 4,
            ImageType::Rgb888 => 5,
            ImageType::EightBpp => 6,
            ImageType::FourBpp => 7,
            ImageType::ThreeD32 => 8,
            ImageType::ThreeD32B => 9,
            ImageType::ThreeD32Mat => 10,
            ImageType::Rgb2x9 => 11,
            ImageType::Rgb666 => 12,
            ImageType::Pal4Obsolete => 13,
            ImageType::Pal8Obsolete => 14,
            ImageType::Rgba32 => 15,
            ImageType::Yuv422 => 16,
            ImageType::Rgba565 => 17,
            ImageType::Rgba16 => 18,
            ImageType::YuvUv => 19,
            ImageType::TfRgba32 => 20,
            ImageType::TfRgbx32 => 21,
            ImageType::TfFloat => 22,
            ImageType::TfRgba16 => 23,
            ImageType::TfRgba5551 => 24,
            ImageType::TfRgb565 => 25,
            ImageType::TfYa88 => 26,
            ImageType::TfByte => 27,
            ImageType::TfPal8 => 28,
            ImageType::TfPal4 => 29,
            ImageType::TfEtc1 => 30,
            ImageType::Bgr888 => 31,
            ImageType::Bgr888Np => 32,
            ImageType::Bayer => 33,
            ImageType::Codec => 34,
            ImageType::YuvUv32 => 35,
            ImageType::TfY8 => 36,
            ImageType::TfA8 => 37,
            ImageType::TfShort => 38,
            ImageType::Tf1Bpp => 39,
            ImageType::OpenGl => 40,
            ImageType::Yuv444I => 41,
            ImageType::Yuv422Planar => 42,
            ImageType::Argb8888 => 43,
            ImageType::Xrgb8888 => 44,
            ImageType::Yuv422YUYV => 45,
            ImageType::Yuv422YVYU => 46,
            ImageType::Yuv422UYVY => 47,
            ImageType::Yuv422VYUY => 48,
            ImageType::Rgbx32 => 49,
            ImageType::Rgbx8888 => 50,
            ImageType::Bgrx8888 => 51,
            ImageType::Yuv420Sp => 52,
            ImageType::Yuv444Planar => 53,
            ImageType::TfU8 => 54,
            ImageType::TfV8 => 55,
            ImageType::Max => 56,
            ImageType::ForceEnum16Bit => 65535,
        }
    }

    /// Bytes that one pixel takes in the packed formats that resources of
    /// this compositor can hold; none for the others.
    pub open spec fn spec_bytes_per_pixel(self) -> Option<usize> {
        match self {
            ImageType::Rgb565 => Some(2),
            ImageType::Rgb888 => Some(3),
            ImageType::EightBpp => Some(1),
            ImageType::Rgba32 => Some(4),
            ImageType::Rgba565 => Some(2),
            ImageType::Rgba16 => Some(2),
            ImageType::Bgr888 => Some(3),
            ImageType::Bgr888Np => Some(3),
            ImageType::TfPal8 => Some(1),
            ImageType::Argb8888 => Some(4),
            ImageType::Xrgb8888 => Some(4),
            ImageType::Rgbx32 => Some(4),
            ImageType::Rgbx8888 => Some(4),
            ImageType::Bgrx8888 => Some(4),
            _ => None,
        }
    }

    pub fn bytes_per_pixel(&self) -> (r: Option<usize>)
        ensures
            r == self.spec_bytes_per_pixel(),
    {
        match self {
            ImageType::Rgb565 => Some(2),
            ImageType::Rgb888 => Some(3),
            ImageType::EightBpp => Some(1),
            ImageType::Rgba32 => Some(4),
            ImageType::Rgba565 => Some(2),
            ImageType::Rgba16 => Some(2),
            ImageType::Bgr888 => Some(3),
            ImageType::Bgr888Np => Some(3),
            ImageType::TfPal8 => Some(1),
            ImageType::Argb8888 => Some(4),
            ImageType::Xrgb8888 => Some(4),
            ImageType::Rgbx32 => Some(4),
            ImageType::Rgbx8888 => Some(4),
            ImageType::Bgrx8888 => Some(4),
            _ => None,
        }
    }

    /// Formats whose pixels index a palette.
    pub open spec fn spec_palette_len(self) -> Option<usize> {
        match self {
            ImageType::FourBpp => Some(16),
            ImageType::EightBpp => Some(256),
            ImageType::TfPal4 => Some(16),
            ImageType::TfPal8 => Some(256),
            _ => None,
        }
    }

    /// Number of palette entries of a palettised format; none for the others.
    pub fn palette_len(&self) -> (r: Option<usize>)
        ensures
            r == self.spec_palette_len(),
    {
        match self {
            ImageType::FourBpp => Some(16),
            ImageType::EightBpp => Some(256),
            ImageType::TfPal4 => Some(16),
            ImageType::TfPal8 => Some(256),
            _ => None,
        }
    }
}

/// Opaque native image.
#[derive(Clone, Copy, Debug, PartialEq, Eq, Structural)]
pub struct Image;

/// A rectangle within an image, in pixels.
#[derive(Clone, Copy, Debug, PartialEq, Eq, Structural)]
pub struct Rect {
    pub x: i32,
    pub y: i32,
    pub width: i32,
    pub height: i32,
}

} // verus!
