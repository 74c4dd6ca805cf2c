use rpi_window::bcm_host::GraphicsDisplaySize;
use rpi_window::compositor::{Compositor, Failure};
use rpi_window::scene::{ElementState, UpdateState, ELEMENT_CHANGE_OPACITY};
use rpi_window::dispmanx::{
    create_window, Clamp, DisplayHandle, ElementHandle, FlagsAlpha, FlagsClamp, Rect,
    ResourceHandle, Transform, UpdateHandle, VCAlpha, DISPMANX_PROTECTION_NONE,
};
use rpi_window::image::ImageType;

fn compositor() -> Compositor {
    Compositor::new(
        2048,
        vec![
            GraphicsDisplaySize { height: 1080, width: 1920 },
            GraphicsDisplaySize { height: 480, width: 800 },
        ],
    )
}

fn rect(x: i32, y: i32, width: i32, height: i32) -> Rect {
    Rect { x, y, width, height }
}

fn opaque() -> VCAlpha {
    VCAlpha { flags: FlagsAlpha::FixedAllPixels, opacity: 255, mask: ResourceHandle(0) }
}

fn add_on(
    c: &mut Compositor,
    u: UpdateHandle,
    d: DisplayHandle,
    layer: i32,
    src: ResourceHandle,
) -> ElementHandle {
    c.add(
        u,
        d,
        layer,
        rect(0, 0, 100, 100),
        src,
        rect(0, 0, 100 << 16, 100 << 16),
        DISPMANX_PROTECTION_NONE,
        opaque(),
        None,
        Transform::NoRotate,
    )
    .unwrap()
}

#[test]
fn create_then_delete_succeeds() {
    let mut c = compositor();
    for (w, h) in [(1u32, 1u32), (100, 50), (2048, 2048)] {
        let r = c.create(ImageType::Rgba32, w, h).unwrap();
        assert_eq!(c.delete(r), Ok(()));
        assert_eq!(c.read(r, rect(0, 0, 1, 1)), Err(Failure::InvalidHandle));
    }
}

#[test]
fn create_rejects_bad_sizes_and_formats() {
    let mut c = compositor();
    assert_eq!(c.create(ImageType::Rgb888, 0, 10), Err(Failure::HardwareRejected));
    assert_eq!(c.create(ImageType::Rgb888, 10, 2049), Err(Failure::HardwareRejected));
    assert_eq!(c.create(ImageType::Yuv420, 10, 10), Err(Failure::HardwareRejected));
    assert_eq!(c.create(ImageType::Max, 10, 10), Err(Failure::HardwareRejected));
}

#[test]
fn new_resource_is_zeroed() {
    let mut c = compositor();
    let r = c.create(ImageType::Rgb565, 3, 2).unwrap();
    assert_eq!(r, ResourceHandle(1));
    assert_eq!(c.read(r, rect(0, 0, 3, 2)).unwrap(), vec![0u8; 12]);
}

#[test]
fn write_then_read_round_trips() {
    let mut c = compositor();
    let r = c.create(ImageType::Rgb888, 4, 4).unwrap();
    let data: Vec<u8> = (1..=18).collect();
    assert_eq!(c.write(r, rect(1, 1, 2, 3), &data, 6), Ok(()));
    assert_eq!(c.read(r, rect(1, 1, 2, 3)).unwrap(), data);
    // the bytes around the rectangle are untouched
    let row0 = c.read(r, rect(0, 0, 4, 1)).unwrap();
    assert_eq!(row0, vec![0u8; 12]);
    let row1 = c.read(r, rect(0, 1, 4, 1)).unwrap();
    assert_eq!(row1, vec![0, 0, 0, 1, 2, 3, 4, 5, 6, 0, 0, 0]);
}

#[test]
fn write_with_wide_pitch_skips_padding() {
    let mut c = compositor();
    let r = c.create(ImageType::EightBpp, 2, 2).unwrap();
    let data = vec![1u8, 2, 99, 3, 4];
    assert_eq!(c.write(r, rect(0, 0, 2, 2), &data, 3), Ok(()));
    assert_eq!(c.read(r, rect(0, 0, 2, 2)).unwrap(), vec![1, 2, 3, 4]);
}

#[test]
fn write_rejects_bad_geometry() {
    let mut c = compositor();
    let r = c.create(ImageType::EightBpp, 2, 2).unwrap();
    let data = vec![1u8, 2, 3, 4];
    assert_eq!(c.write(r, rect(1, 0, 2, 2), &data, 2), Err(Failure::HardwareRejected));
    assert_eq!(c.write(r, rect(0, 0, 2, 2), &data, 1), Err(Failure::HardwareRejected));
    assert_eq!(c.write(r, rect(0, 0, 2, 2), &data, 3), Err(Failure::HardwareRejected));
    assert_eq!(c.write(r, rect(-1, 0, 1, 1), &data, 1), Err(Failure::HardwareRejected));
    assert_eq!(c.write(ResourceHandle(9), rect(0, 0, 1, 1), &data, 1), Err(Failure::InvalidHandle));
    assert_eq!(c.read(r, rect(0, 0, 2, 3)), Err(Failure::HardwareRejected));
}

#[test]
fn palette_writes_within_bounds() {
    let mut c = compositor();
    let r = c.create(ImageType::EightBpp, 2, 2).unwrap();
    assert_eq!(c.write_palette(r, &vec![7, 8], 254), Ok(()));
    assert_eq!(c.write_palette(r, &vec![7, 8], 255), Err(Failure::HardwareRejected));
    let rgb = c.create(ImageType::Rgb888, 2, 2).unwrap();
    assert_eq!(c.write_palette(rgb, &vec![7], 0), Err(Failure::HardwareRejected));
}

#[test]
fn open_display_and_add_element_scenario() {
    let mut c = compositor();
    let d = c.open(0).unwrap();
    let r = c.create(ImageType::Rgb888, 100, 100).unwrap();
    let u = c.start(0).unwrap();
    let e = c
        .add(
            u,
            d,
            0,
            rect(0, 0, 100, 100),
            r,
            rect(0, 0, 100 << 16, 100 << 16),
            DISPMANX_PROTECTION_NONE,
            VCAlpha { flags: FlagsAlpha::FixedAllPixels, opacity: 255, mask: ResourceHandle(0) },
            None,
            Transform::NoRotate,
        )
        .unwrap();
    assert_eq!(c.submit_sync(u), Ok(()));
    assert_ne!(e.0, 0);
    assert_eq!(c.element(e).unwrap().state, ElementState::Live);
    assert_eq!(c.composition(d).unwrap(), vec![e]);
}

#[test]
fn element_is_not_composited_before_its_update_applies() {
    let mut c = compositor();
    let d = c.open(0).unwrap();
    let r = c.create(ImageType::Rgb888, 10, 10).unwrap();
    let u = c.start(0).unwrap();
    let e = add_on(&mut c, u, d, 0, r);
    assert_eq!(c.element(e).unwrap().state, ElementState::Pending);
    assert_eq!(c.composition(d).unwrap(), Vec::<ElementHandle>::new());
    c.submit_sync(u).unwrap();
    assert_eq!(c.composition(d).unwrap(), vec![e]);
}

#[test]
fn delete_of_resource_in_use_fails_and_keeps_it() {
    let mut c = compositor();
    let d = c.open(0).unwrap();
    let r = c.create(ImageType::Rgb888, 10, 10).unwrap();
    let u = c.start(0).unwrap();
    let e = add_on(&mut c, u, d, 0, r);
    c.submit_sync(u).unwrap();
    assert_eq!(c.delete(r), Err(Failure::HardwareRejected));
    assert!(c.read(r, rect(0, 0, 10, 10)).is_ok());
    // once the element is removed the resource can go
    let u2 = c.start(0).unwrap();
    c.remove(u2, e).unwrap();
    c.submit_sync(u2).unwrap();
    assert_eq!(c.delete(r), Ok(()));
}

#[test]
fn delete_of_pending_source_or_destination_fails() {
    let mut c = compositor();
    let d = c.open(0).unwrap();
    let r = c.create(ImageType::Rgb888, 10, 10).unwrap();
    let other = c.create(ImageType::Rgb888, 10, 10).unwrap();
    let u = c.start(0).unwrap();
    let e = add_on(&mut c, u, d, 0, r);
    c.submit_sync(u).unwrap();
    let u2 = c.start(0).unwrap();
    c.change_source(u2, e, other).unwrap();
    assert!(c.is_referenced(other));
    assert_eq!(c.delete(other), Err(Failure::HardwareRejected));
    let target = c.create(ImageType::Rgb565, 64, 32).unwrap();
    let off = c.open_offscreen(target, Transform::NoRotate).unwrap();
    assert_eq!(c.delete(target), Err(Failure::HardwareRejected));
    let info = c.get_info(off).unwrap();
    assert_eq!((info.width, info.height), (64, 32));
}

#[test]
fn mutation_with_submitted_update_is_misuse() {
    let mut c = compositor();
    let d = c.open(0).unwrap();
    let r = c.create(ImageType::Rgb888, 10, 10).unwrap();
    let u = c.start(0).unwrap();
    let e = add_on(&mut c, u, d, 0, r);
    c.submit_sync(u).unwrap();
    assert_eq!(c.change_layer(u, e, 3), Err(Failure::ProtocolMisuse));
    assert_eq!(c.remove(u, e), Err(Failure::ProtocolMisuse));
    assert_eq!(c.modified(u, e, rect(0, 0, 1, 1)), Err(Failure::ProtocolMisuse));
    assert_eq!(c.change_source(u, e, r), Err(Failure::ProtocolMisuse));
    assert_eq!(
        c.change_attributes(u, e, ELEMENT_CHANGE_OPACITY, 0, 10, rect(0, 0, 1, 1), rect(0, 0, 1, 1), ResourceHandle(0), Transform::NoRotate),
        Err(Failure::ProtocolMisuse)
    );
    assert_eq!(c.set_background(u, d, 1, 2, 3), Err(Failure::ProtocolMisuse));
    assert_eq!(c.submit_sync(u), Err(Failure::ProtocolMisuse));
    assert_eq!(c.submit_async(u), Err(Failure::ProtocolMisuse));
    assert_eq!(c.submit_sync(UpdateHandle(77)), Err(Failure::InvalidHandle));
    assert_eq!(c.element(e).unwrap().layer, 0);
}

#[test]
fn add_then_remove_in_one_update_changes_nothing() {
    let mut c = compositor();
    let d = c.open(0).unwrap();
    let r = c.create(ImageType::Rgb888, 10, 10).unwrap();
    let u0 = c.start(0).unwrap();
    let kept = add_on(&mut c, u0, d, 2, r);
    c.submit_sync(u0).unwrap();
    let before = c.composition(d).unwrap();
    let u = c.start(0).unwrap();
    let e = add_on(&mut c, u, d, 5, r);
    c.remove(u, e).unwrap();
    c.submit_sync(u).unwrap();
    assert_eq!(c.composition(d).unwrap(), before);
    assert_eq!(before, vec![kept]);
    assert_eq!(c.element(e).unwrap().state, ElementState::Removed);
    let u2 = c.start(0).unwrap();
    assert_eq!(c.remove(u2, e), Err(Failure::InvalidHandle));
}

#[test]
fn higher_layer_is_drawn_on_top_whatever_the_add_order() {
    let mut c = compositor();
    let d = c.open(0).unwrap();
    let r = c.create(ImageType::Rgb888, 10, 10).unwrap();
    let u = c.start(0).unwrap();
    let top = add_on(&mut c, u, d, 1, r);
    let bottom = add_on(&mut c, u, d, 0, r);
    c.submit_sync(u).unwrap();
    assert_eq!(c.composition(d).unwrap(), vec![bottom, top]);
}

#[test]
fn same_layer_keeps_add_order_and_layer_change_resorts() {
    let mut c = compositor();
    let d = c.open(0).unwrap();
    let other = c.open(1).unwrap();
    let r = c.create(ImageType::Rgb888, 10, 10).unwrap();
    let u = c.start(0).unwrap();
    let a = add_on(&mut c, u, d, 4, r);
    let b = add_on(&mut c, u, d, 4, r);
    let x = add_on(&mut c, u, other, -3, r);
    let z = add_on(&mut c, u, d, -1, r);
    c.submit_sync(u).unwrap();
    assert_eq!(c.composition(d).unwrap(), vec![z, a, b]);
    assert_eq!(c.composition(other).unwrap(), vec![x]);
    let u2 = c.start(0).unwrap();
    c.change_layer(u2, a, 9).unwrap();
    c.submit_sync(u2).unwrap();
    assert_eq!(c.composition(d).unwrap(), vec![z, b, a]);
    assert_eq!(c.element(a).unwrap().dest_rect, rect(0, 0, 100, 100));
}

#[test]
fn opacity_only_change_keeps_geometry() {
    let mut c = compositor();
    let d = c.open(0).unwrap();
    let r = c.create(ImageType::Rgb888, 10, 10).unwrap();
    let u = c.start(0).unwrap();
    let e = c
        .add(
            u,
            d,
            0,
            rect(5, 6, 70, 80),
            r,
            rect(0, 0, 10 << 16, 10 << 16),
            DISPMANX_PROTECTION_NONE,
            opaque(),
            Some(Clamp { mode: FlagsClamp::Transparent, key_mask: 0, replace_value: 0 }),
            Transform::Rotate90,
        )
        .unwrap();
    c.submit_sync(u).unwrap();
    let u2 = c.start(0).unwrap();
    c.change_attributes(
        u2,
        e,
        ELEMENT_CHANGE_OPACITY,
        7,
        128,
        rect(0, 0, 1, 1),
        rect(0, 0, 1, 1),
        ResourceHandle(0),
        Transform::FlipVert,
    )
    .unwrap();
    c.submit_sync(u2).unwrap();
    let slot = c.element(e).unwrap();
    assert_eq!(slot.alpha.opacity, 128);
    assert_eq!(slot.dest_rect, rect(5, 6, 70, 80));
    assert_eq!(slot.transform, Transform::Rotate90);
    assert_eq!(slot.layer, 0);
}

#[test]
fn change_source_keeps_geometry() {
    let mut c = compositor();
    let d = c.open(0).unwrap();
    let r = c.create(ImageType::Rgb888, 10, 10).unwrap();
    let s = c.create(ImageType::Rgb888, 20, 20).unwrap();
    let u = c.start(0).unwrap();
    let e = add_on(&mut c, u, d, 0, r);
    c.submit_sync(u).unwrap();
    let u2 = c.start(0).unwrap();
    c.change_source(u2, e, s).unwrap();
    assert_eq!(c.change_source(u2, e, ResourceHandle(50)), Err(Failure::InvalidHandle));
    c.submit_sync(u2).unwrap();
    let slot = c.element(e).unwrap();
    assert_eq!(slot.source, s);
    assert_eq!(slot.dest_rect, rect(0, 0, 100, 100));
}

#[test]
fn async_submit_applies_at_vsync_in_order() {
    let mut c = compositor();
    let d = c.open(0).unwrap();
    let r = c.create(ImageType::Rgb888, 10, 10).unwrap();
    let u1 = c.start(0).unwrap();
    let e = add_on(&mut c, u1, d, 0, r);
    let u2 = c.start(5).unwrap();
    c.set_background(u2, d, 10, 20, 30).unwrap();
    c.submit_async(u1).unwrap();
    c.submit_async(u2).unwrap();
    assert_eq!(c.update_state(u1), Some(UpdateState::Queued));
    assert_eq!(c.composition(d).unwrap(), Vec::<ElementHandle>::new());
    assert_eq!(c.vsync(), vec![u1, u2]);
    assert_eq!(c.update_state(u1), Some(UpdateState::Applied));
    assert_eq!(c.composition(d).unwrap(), vec![e]);
    let slot = c.display(d).unwrap();
    assert_eq!((slot.background_red, slot.background_green, slot.background_blue), (10, 20, 30));
    assert_eq!(c.vsync(), Vec::<UpdateHandle>::new());
}

#[test]
fn submit_sync_applies_earlier_async_updates_first() {
    let mut c = compositor();
    let d = c.open(0).unwrap();
    let r = c.create(ImageType::Rgb888, 10, 10).unwrap();
    let u1 = c.start(0).unwrap();
    let e = add_on(&mut c, u1, d, 0, r);
    c.submit_async(u1).unwrap();
    let u2 = c.start(0).unwrap();
    c.change_layer(u2, e, 6).unwrap();
    c.submit_sync(u2).unwrap();
    assert_eq!(c.update_state(u1), Some(UpdateState::Applied));
    assert_eq!(c.element(e).unwrap().layer, 6);
    assert_eq!(c.element(e).unwrap().state, ElementState::Live);
}

#[test]
fn add_checks_its_handles() {
    let mut c = compositor();
    let d = c.open(0).unwrap();
    let r = c.create(ImageType::Rgb888, 10, 10).unwrap();
    let u = c.start(0).unwrap();
    let bad = c.add(u, DisplayHandle(9), 0, rect(0, 0, 1, 1), r, rect(0, 0, 1, 1), 0, opaque(), None, Transform::NoRotate);
    assert_eq!(bad, Err(Failure::InvalidHandle));
    let bad = c.add(u, d, 0, rect(0, 0, 1, 1), ResourceHandle(4), rect(0, 0, 1, 1), 0, opaque(), None, Transform::NoRotate);
    assert_eq!(bad, Err(Failure::InvalidHandle));
    let bad = c.add(u, d, 0, rect(0, 0, 1, 1), r, rect(0, 0, 1, 1), 0, opaque(), None, Transform::SnapshotFill);
    assert_eq!(bad, Err(Failure::HardwareRejected));
    let bad = c.add(UpdateHandle(0), d, 0, rect(0, 0, 1, 1), r, rect(0, 0, 1, 1), 0, opaque(), None, Transform::NoRotate);
    assert_eq!(bad, Err(Failure::InvalidHandle));
}

#[test]
fn displays_open_close_and_report() {
    let mut c = compositor();
    assert_eq!(c.open(2), Err(Failure::HardwareRejected));
    let d = c.open(1).unwrap();
    let info = c.get_info(d).unwrap();
    assert_eq!((info.width, info.height, info.display_num), (800, 480, 1));
    let r = c.create(ImageType::Rgb888, 10, 10).unwrap();
    let u = c.start(0).unwrap();
    let e = add_on(&mut c, u, d, 0, r);
    c.submit_sync(u).unwrap();
    assert_eq!(c.close(d), Ok(()));
    let u2 = c.start(0).unwrap();
    assert_eq!(c.set_background(u2, d, 1, 1, 1), Err(Failure::InvalidHandle));
    assert_eq!(c.delete(r), Err(Failure::HardwareRejected));
    c.remove(u2, e).unwrap();
    c.submit_sync(u2).unwrap();
    assert_eq!(c.delete(r), Ok(()));
    assert_eq!(c.get_info(d), Err(Failure::InvalidHandle));
    assert_eq!(c.close(d), Err(Failure::InvalidHandle));
}

#[test]
fn display_size_query_on_model() {
    let c = compositor();
    assert_eq!(c.graphics_get_display_size(0), Some(GraphicsDisplaySize { height: 1080, width: 1920 }));
    assert_eq!(c.graphics_get_display_size(2), None);
}

#[test]
fn create_window_shows_one_element() {
    let mut c = compositor();
    let dest = rect(0, 0, 1920, 1080);
    let src = rect(0, 0, 1920 << 16, 1080 << 16);
    let w = create_window(&mut c, 0, dest, src, opaque(), Transform::NoRotate).unwrap();
    assert_eq!((w.width, w.height), (1920, 1080));
    assert_ne!(w.element.0, 0);
    let slot = c.element(w.element).unwrap();
    assert_eq!(slot.state, ElementState::Live);
    assert_eq!(slot.source, ResourceHandle(0));
    assert_eq!(c.composition(slot.display).unwrap(), vec![w.element]);
    assert_eq!(
        create_window(&mut c, 7, dest, src, opaque(), Transform::NoRotate).map(|w| w.width),
        Err(Failure::HardwareRejected)
    );
}

#[test]
fn destination_change_applies_with_its_update() {
    let mut c = compositor();
    let first = c.create(ImageType::Rgb888, 32, 32).unwrap();
    let second = c.create(ImageType::Rgb888, 32, 32).unwrap();
    let d = c.open_offscreen(first, Transform::Rotate180).unwrap();
    assert_eq!(c.get_info(d).unwrap().transform, Transform::Rotate180);
    let u = c.start(0).unwrap();
    assert_eq!(c.set_destination(u, d, ResourceHandle(0)), Err(Failure::InvalidHandle));
    c.set_destination(u, d, second).unwrap();
    assert_eq!(c.display(d).unwrap().destination, first);
    assert_eq!(c.delete(second), Err(Failure::HardwareRejected));
    c.submit_sync(u).unwrap();
    assert_eq!(c.display(d).unwrap().destination, second);
    assert_eq!(c.delete(first), Ok(()));
    assert_eq!(c.delete(second), Err(Failure::HardwareRejected));
}

#[test]
fn vsync_callbacks_follow_registration() {
    let mut c = compositor();
    let a = c.open(0).unwrap();
    let b = c.open(1).unwrap();
    assert_eq!(c.vsync_callbacks(), Vec::<(DisplayHandle, u64)>::new());
    c.set_vsync_callback(b, Some(7)).unwrap();
    c.set_vsync_callback(a, Some(3)).unwrap();
    assert_eq!(c.vsync_callbacks(), vec![(a, 3), (b, 7)]);
    c.set_vsync_callback(a, Some(4)).unwrap();
    c.close(b).unwrap();
    assert_eq!(c.vsync_callbacks(), vec![(a, 4)]);
    c.set_vsync_callback(a, None).unwrap();
    assert_eq!(c.vsync_callbacks(), Vec::<(DisplayHandle, u64)>::new());
    assert_eq!(c.set_vsync_callback(b, Some(1)), Err(Failure::InvalidHandle));
}

#[test]
fn create_window_spends_its_update_and_keeps_the_rest() {
    let mut c = compositor();
    let r = c.create(ImageType::Rgb888, 2, 1).unwrap();
    let data = vec![1u8, 2, 3, 4, 5, 6];
    c.write(r, rect(0, 0, 2, 1), &data, 6).unwrap();
    let mask = c.create(ImageType::EightBpp, 4, 4).unwrap();
    let alpha = VCAlpha { flags: FlagsAlpha::FromSource, opacity: 200, mask };
    let w = create_window(&mut c, 1, rect(0, 0, 800, 480), rect(0, 0, 800 << 16, 480 << 16), alpha, Transform::NoRotate)
        .unwrap();
    assert_eq!(w.element, ElementHandle(1));
    let u = UpdateHandle(1);
    assert_eq!(c.update_state(u), Some(UpdateState::Applied));
    assert_eq!(c.change_layer(u, w.element, 2), Err(Failure::ProtocolMisuse));
    assert_eq!(c.read(r, rect(0, 0, 2, 1)).unwrap(), data);
    assert_eq!(c.delete(mask), Err(Failure::HardwareRejected));
    assert!(c.read(mask, rect(0, 0, 4, 4)).is_ok());
    assert_eq!(c.delete(r), Ok(()));
    let d = c.element(w.element).unwrap().display;
    let info = c.get_info(d).unwrap();
    assert_eq!((info.width, info.height), (800, 480));
    assert_eq!(c.graphics_get_display_size(1), Some(GraphicsDisplaySize { height: 480, width: 800 }));
}

#[test]
fn failed_create_window_changes_nothing() {
    let mut c = compositor();
    let bad_mask = VCAlpha { flags: FlagsAlpha::FixedAllPixels, opacity: 255, mask: ResourceHandle(3) };
    let r = create_window(&mut c, 0, rect(0, 0, 1, 1), rect(0, 0, 1, 1), bad_mask, Transform::NoRotate);
    assert_eq!(r.map(|w| w.element), Err(Failure::HardwareRejected));
    let r = create_window(&mut c, 0, rect(0, 0, 1, 1), rect(0, 0, 1, 1), opaque(), Transform::SnapshotFill);
    assert_eq!(r.map(|w| w.element), Err(Failure::HardwareRejected));
    assert_eq!(c.display(DisplayHandle(1)), None);
    assert_eq!(c.update_state(UpdateHandle(1)), None);
    assert_eq!(c.element(ElementHandle(1)), None);
}

#[test]
fn two_windows_on_one_output_are_separate_compositions() {
    let mut c = compositor();
    let a = create_window(&mut c, 0, rect(0, 0, 10, 10), rect(0, 0, 10 << 16, 10 << 16), opaque(), Transform::NoRotate).unwrap();
    let b = create_window(&mut c, 0, rect(0, 0, 10, 10), rect(0, 0, 10 << 16, 10 << 16), opaque(), Transform::NoRotate).unwrap();
    let da = c.element(a.element).unwrap().display;
    let db = c.element(b.element).unwrap().display;
    assert_ne!(da, db);
    assert_eq!(c.composition(da).unwrap(), vec![a.element]);
    assert_eq!(c.composition(db).unwrap(), vec![b.element]);
}

#[test]
fn eight_bit_texture_palette_is_writable() {
    let mut c = compositor();
    let r = c.create(ImageType::TfPal8, 4, 4).unwrap();
    assert_eq!(c.write_palette(r, &vec![1, 2, 3], 253), Ok(()));
    assert_eq!(c.write_palette(r, &vec![1, 2, 3], 254), Err(Failure::HardwareRejected));
    assert_eq!(c.create(ImageType::FourBpp, 4, 4), Err(Failure::HardwareRejected));
}
