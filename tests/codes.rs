use rpi_window::bcm_host::{display_size_from_query, GraphicsDisplaySize};
use rpi_window::display::{Dither, Format3d, Interface, VCOSInputFormat};
use rpi_window::dispmanx::{FlagsAlpha, FlagsClamp, Status, Transform};
use rpi_window::image::{ImageBayerFormat, ImageBayerOrder, ImageTransform, ImageType};

#[test]
fn transform_codes() {
    assert_eq!(Transform::NoRotate.code(), 0);
    assert_eq!(Transform::Rotate270.code(), 3);
    assert_eq!(Transform::FlipHriz.code(), 1 << 16);
    assert_eq!(Transform::FlipVert.code(), 1 << 17);
    assert_eq!(Transform::SnapshotPack.code(), 1 << 28);
    assert!(Transform::FlipVert.is_placement());
    assert!(!Transform::SnapshotNoYuv.is_placement());
}

#[test]
fn alpha_codes_round_trip() {
    for f in [
        FlagsAlpha::FromSource,
        FlagsAlpha::FixedAllPixels,
        FlagsAlpha::FixedNonZero,
        FlagsAlpha::FixedExceed0x07,
        FlagsAlpha::Premult,
        FlagsAlpha::Mix,
    ] {
        assert_eq!(FlagsAlpha::from_code(f.code()), Some(f));
    }
    assert_eq!(FlagsAlpha::Mix.code(), 1 << 17);
    assert_eq!(FlagsAlpha::from_code(4), None);
    assert_eq!(FlagsClamp::Replace.code(), 3);
}

#[test]
fn status_codes() {
    assert_eq!(Status::Success.code(), 0);
    assert_eq!(Status::Invalid.code(), -1);
    assert_eq!(Status::from_code(0), Status::Success);
    assert_eq!(Status::from_code(-5), Status::Invalid);
}

#[test]
fn image_codes() {
    assert_eq!(ImageType::Min.code(), 0);
    assert_eq!(ImageType::Rgb565.code(), 1);
    assert_eq!(ImageType::Rgb888.code(), 5);
    assert_eq!(ImageType::Rgba32.code(), 15);
    assert_eq!(ImageType::Argb8888.code(), 43);
    assert_eq!(ImageType::TfV8.code(), 55);
    assert_eq!(ImageType::Max.code(), 56);
    assert_eq!(ImageType::ForceEnum16Bit.code(), 0xffff);
    assert_eq!(ImageType::Rgb888.bytes_per_pixel(), Some(3));
    assert_eq!(ImageType::Max.bytes_per_pixel(), None);
    assert_eq!(ImageType::FourBpp.palette_len(), Some(16));
    assert_eq!(ImageBayerFormat::Raw10L.code(), 11);
    assert_eq!(ImageBayerFormat::Raw4.code(), 15);
    assert_eq!(ImageBayerOrder::GRBG.code(), 3);
    assert_eq!(ImageTransform::Rot90.code(), 6);
    assert_eq!(ImageTransform::MirrorRot270.code(), 7);
}

#[test]
fn display_codes() {
    assert_eq!(Dither::Rgb555.code(), 3);
    assert_eq!(Interface::Lvds.code(), 4);
    assert_eq!(VCOSInputFormat::Rgb565.code(), 2);
    assert_eq!(Format3d::TbHalf.code(), 4);
}

#[test]
fn display_size_query() {
    assert_eq!(display_size_from_query(0, 1920, 1080), Some(GraphicsDisplaySize { height: 1080, width: 1920 }));
    assert_eq!(display_size_from_query(-1, 1920, 1080), None);
}
