use vstd::prelude::*;

use crate::bcm_host::GraphicsDisplaySize;
use crate::display::{InputFormat, VCOSInputFormat};
use crate::dispmanx::{
    Clamp, DisplayHandle, ElementHandle, Protection, Rect, ResourceHandle, Transform,
    UpdateHandle, VCAlpha,
};
use crate::image::ImageType;
use crate::pixels::{blank, holds_rows, read_rows, region, rows_view, write_rows, written};
use crate::scene::{
    apply_batches, apply_op, apply_ops, below, callbacks_due, is_composition,
    lemma_apply_op_bounded, lemma_apply_op_sized, on_display, outputs_sized, op_bounded, op_in_scene, op_references, refs_bounded, selects, DisplaySlot,
    ElementSlot, ElementState, ModeInfo, Op, Scene, UpdateSlot, UpdateState,
    ELEMENT_CHANGE_DEST_RECT, ELEMENT_CHANGE_LAYER, ELEMENT_CHANGE_MASK_RESOURCE,
    ELEMENT_CHANGE_OPACITY, ELEMENT_CHANGE_SRC_RECT, ELEMENT_CHANGE_TRANSFORM,
};

verus! {

/// Most entries a handle table holds; handles are `u32` and zero is no handle.
pub const TABLE_CAPACITY: usize = 0xffff_fffe;

/// Why an operation failed.
#[derive(Clone, Copy, Debug, PartialEq, Eq, Structural)]
pub enum Failure {
    /// A handle that was never created, was released, or names another kind.
    InvalidHandle,
    /// The compositor refused: unsupported format, exhaustion, bad geometry.
    HardwareRejected,
    /// A mutation outside an open update, or an update used after submission.
    ProtocolMisuse,
}

/// What the compositor records of a pixel buffer.
#[derive(Clone, Copy, Debug, PartialEq, Eq, Structural)]
pub struct ResourceInfo {
    pub live: bool,
    pub format: ImageType,
    pub width: u32,
    pub height: u32,
}

/// Pixel format that an off-screen display composites into, by the format
/// of its destination resource.
pub open spec fn input_format_of(format: ImageType) -> InputFormat {
    match format {
        ImageType::Rgb888 => VCOSInputFormat::Rgb888,
        ImageType::Rgb565 => VCOSInputFormat::Rgb565,
        _ => VCOSInputFormat::Invalid,
    }
}

fn input_format_for(format: ImageType) -> (r: InputFormat)
    ensures
        r == input_format_of(format),
{
    match format {
        ImageType::Rgb888 => VCOSInputFormat::Rgb888,
        ImageType::Rgb565 => VCOSInputFormat::Rgb565,
        _ => VCOSInputFormat::Invalid,
    }
}

/// Bytes in one row of a resource.
pub open spec fn row_bytes(info: ResourceInfo) -> int {
    info.width * info.format.spec_bytes_per_pixel().unwrap()
}

/// Whether a rectangle, in pixels, lies within a resource.
pub open spec fn rect_within(info: ResourceInfo, rect: Rect) -> bool {
    &&& 0 <= rect.x && 0 <= rect.y && 0 <= rect.width && 0 <= rect.height
    &&& rect.x + rect.width <= info.width
    &&& rect.y + rect.height <= info.height
}

/// A software compositor: the handle tables of resources, displays, elements
/// and updates, and the committed scene that applied updates have built.
pub struct Compositor {
    max_dimension: u32,
    outputs: Vec<GraphicsDisplaySize>,
    resources: Vec<ResourceInfo>,
    pixels: Vec<Vec<Vec<u8>>>,
    palettes: Vec<Vec<u32>>,
    displays: Vec<DisplaySlot>,
    elements: Vec<ElementSlot>,
    updates: Vec<UpdateSlot>,
    batches: Vec<Vec<Op>>,
    queue: Vec<UpdateHandle>,
}

impl Compositor {
    /// Largest width or height of a resource.
    pub closed spec fn max_dimension(self) -> u32 {
        self.max_dimension
    }

    /// Size of each physical output, by device number.
    pub closed spec fn outputs(self) -> Seq<GraphicsDisplaySize> {
        self.outputs@
    }

    pub closed spec fn resources(self) -> Seq<ResourceInfo> {
        self.resources@
    }

    /// Rows of bytes of the resource at table index `i`.
    pub closed spec fn content(self, i: int) -> Seq<Seq<u8>> {
        rows_view(self.pixels@[i]@)
    }

    /// Palette of the resource at table index `i`.
    pub closed spec fn palette(self, i: int) -> Seq<u32> {
        self.palettes@[i]@
    }

    /// Displays and elements as applied updates have left them.
    pub closed spec fn scene(self) -> Scene {
        Scene { elements: self.elements@, displays: self.displays@ }
    }

    pub closed spec fn updates(self) -> Seq<UpdateSlot> {
        self.updates@
    }

    /// Changes that the update at table index `i` carries.
    pub closed spec fn batch(self, i: int) -> Seq<Op> {
        self.batches@[i]@
    }

    /// Updates submitted without waiting, in submission order.
    pub closed spec fn queued(self) -> Seq<UpdateHandle> {
        self.queue@
    }

    /// Well-formedness of the tables, queue aside.
    closed spec fn tables_wf(self) -> bool {
        &&& self.max_dimension * self.max_dimension * 4 <= usize::MAX
        &&& outputs_sized(self.scene(), self.outputs@)
        &&& self.pixels.len() == self.resources.len()
        &&& self.palettes.len() == self.resources.len()
        &&& self.resources.len() <= TABLE_CAPACITY
        &&& self.displays.len() <= TABLE_CAPACITY
        &&& self.elements.len() <= TABLE_CAPACITY
        &&& self.updates.len() <= TABLE_CAPACITY
        &&& self.batches.len() == self.updates.len()
        &&& forall|i: int|
            0 <= i < self.resources.len() && (#[trigger] self.resources@[i]).live ==> {
                let info = self.resources@[i];
                &&& info.format.spec_bytes_per_pixel() is Some
                &&& 1 <= info.width <= self.max_dimension
                &&& 1 <= info.height <= self.max_dimension
                &&& self.pixels@[i].len() == info.height
                &&& forall|r: int|
                    0 <= r < info.height ==> (#[trigger] self.pixels@[i]@[r]).len() == row_bytes(
                        info,
                    )
            }
        &&& refs_bounded(self.scene(), self.resources.len() as int)
        &&& forall|u: int, k: int|
            0 <= u < self.batches.len() && 0 <= k < self.batches@[u].len() ==> op_bounded(
                #[trigger] self.batches@[u]@[k],
                self.resources.len() as int,
            )
        &&& forall|u: int, k: int|
            0 <= u < self.batches.len() && 0 <= k < self.batches@[u].len() ==> op_in_scene(
                #[trigger] self.batches@[u]@[k],
                self.elements.len() as int,
                self.displays.len() as int,
            )
    }

    pub closed spec fn wf(self) -> bool {
        &&& self.tables_wf()
        &&& forall|k: int|
            0 <= k < self.queue.len() ==> {
                let u = (#[trigger] self.queue@[k]).0 as int;
                &&& 1 <= u <= self.updates.len()
                &&& self.updates@[u - 1].state == UpdateState::Queued
            }
    }

    /// Whether `r` names a resource that exists.
    pub open spec fn live_resource(self, r: ResourceHandle) -> bool {
        1 <= r.0 <= self.resources().len() && self.resources()[r.0 - 1].live
    }

    /// Every part of the state but resources and their bytes is as in `other`.
    pub open spec fn same_but_resources(self, other: Compositor) -> bool {
        &&& self.max_dimension() == other.max_dimension()
        &&& self.outputs() == other.outputs()
        &&& self.scene() == other.scene()
        &&& self.updates() == other.updates()
        &&& self.queued() == other.queued()
        &&& forall|i: int| 0 <= i < other.updates().len() ==> self.batch(i) == other.batch(i)
    }

    /// Contents and palettes of all resources but the one at index `i` are as
    /// in `other`.
    pub open spec fn same_content_but(self, other: Compositor, i: int) -> bool {
        forall|j: int|
            0 <= j < other.resources().len() && j != i ==> self.content(j) == other.content(j)
                && self.palette(j) == other.palette(j)
    }

    /// An empty compositor with the given physical outputs, whose resources
    /// may be up to `max_dimension` pixels wide and high.
    pub fn new(max_dimension: u32, outputs: Vec<GraphicsDisplaySize>) -> (r: Compositor)
        requires
            max_dimension * max_dimension * 4 <= usize::MAX,
        ensures
            r.wf(),
            r.max_dimension() == max_dimension,
            r.outputs() == outputs@,
            r.resources().len() == 0,
            r.scene().elements.len() == 0,
            r.scene().displays.len() == 0,
            r.updates().len() == 0,
            r.queued().len() == 0,
    {
        Compositor {
            max_dimension,
            outputs,
            resources: Vec::new(),
            pixels: Vec::new(),
            palettes: Vec::new(),
            displays: Vec::new(),
            elements: Vec::new(),
            updates: Vec::new(),
            batches: Vec::new(),
            queue: Vec::new(),
        }
    }

    /// Size of the physical output `display_number`; none where there is no
    /// such output.
    pub fn graphics_get_display_size(&self, display_number: u16) -> (r: Option<
        GraphicsDisplaySize,
    >)
        ensures
            r == (if display_number < self.outputs().len() {
                Some(self.outputs()[display_number as int])
            } else {
                None
            }),
    {
        if (display_number as usize) < self.outputs.len() {
            Some(self.outputs[display_number as usize])
        } else {
            None
        }
    }

    pub open spec fn create_check(self, format: ImageType, width: u32, height: u32) -> Option<
        Failure,
    > {
        if format.spec_bytes_per_pixel() is None || width == 0 || height == 0 || width
            > self.max_dimension() || height > self.max_dimension() || self.resources().len()
            >= TABLE_CAPACITY {
            Some(Failure::HardwareRejected)
        } else {
            None
        }
    }

    /// Allocates a zeroed pixel buffer of the given format and exact size.
    /// Fails where the format is not one that resources can hold, a side is
    /// zero or over the limit, or the table is full.
    pub fn create(&mut self, format: ImageType, width: u32, height: u32) -> (r: Result<
        ResourceHandle,
        Failure,
    >)
        requires
            old(self).wf(),
        ensures
            final(self).wf(),
            match old(self).create_check(format, width, height) {
                Some(e) => r == Err::<ResourceHandle, Failure>(e) && *final(self) == *old(self),
                None => {
                    let i = old(self).resources().len() as int;
                    let info = ResourceInfo { live: true, format, width, height };
                    &&& r == Ok::<ResourceHandle, Failure>(ResourceHandle((i + 1) as u32))
                    &&& final(self).resources() == old(self).resources().push(info)
                    &&& final(self).content(i) == blank(height as int, row_bytes(info))
                    &&& final(self).palette(i) == Seq::new(
                        format.spec_palette_len().unwrap_or(0) as nat,
                        |k: int| 0u32,
                    )
                    &&& final(self).same_content_but(*old(self), i)
                    &&& final(self).same_but_resources(*old(self))
                },
            },
    {
        let bpp = match format.bytes_per_pixel() {
            Some(b) => b,
            None => {
                return Err(Failure::HardwareRejected);
            },
        };
        if width == 0 || height == 0 || width > self.max_dimension || height > self.max_dimension
            || self.resources.len() >= TABLE_CAPACITY {
            return Err(Failure::HardwareRejected);
        }
        let ghost info = ResourceInfo { live: true, format, width, height };
        assert(width * bpp <= usize::MAX) by (nonlinear_arith)
            requires
                width <= self.max_dimension,
                bpp <= 4,
                1 <= self.max_dimension,
                self.max_dimension * self.max_dimension * 4 <= usize::MAX,
        ;
        let row_len = width as usize * bpp;
        let mut rows: Vec<Vec<u8>> = Vec::new();
        let mut r: u32 = 0;
        while r < height
            invariant
                r <= height,
                rows.len() == r,
                forall|q: int| 0 <= q < r ==> (#[trigger] rows@[q])@ == Seq::new(
                    row_len as nat,
                    |c: int| 0u8,
                ),
            decreases height - r,
        {
            let mut row: Vec<u8> = Vec::new();
            let mut c: usize = 0;
            while c < row_len
                invariant
                    c <= row_len,
                    row@ == Seq::new(c as nat, |k: int| 0u8),
                decreases row_len - c,
            {
                row.push(0u8);
                assert(row@ =~= Seq::new((c + 1) as nat, |k: int| 0u8));
                c = c + 1;
            }
            rows.push(row);
            r = r + 1;
        }
        let n = match format.palette_len() {
            Some(n) => n,
            None => 0,
        };
        let mut palette: Vec<u32> = Vec::new();
        let mut k: usize = 0;
        while k < n
            invariant
                k <= n,
                palette@ == Seq::new(k as nat, |j: int| 0u32),
            decreases n - k,
        {
            palette.push(0u32);
            assert(palette@ =~= Seq::new((k + 1) as nat, |j: int| 0u32));
            k = k + 1;
        }
        let ghost old_self = *self;
        let i = self.resources.len();
        self.resources.push(ResourceInfo { live: true, format, width, height });
        self.pixels.push(rows);
        self.palettes.push(palette);
        proof {
            assert(self.content(i as int) =~= blank(height as int, row_bytes(info)));
            assert forall|j: int| 0 <= j < old_self.resources().len() && j != i implies self.content(
                j,
            ) == old_self.content(j) && self.palette(j) == old_self.palette(j) by {
                assert(self.pixels@[j] == old_self.pixels@[j]);
                assert(self.palettes@[j] == old_self.palettes@[j]);
            }
            assert forall|q: int|
                0 <= q < self.resources.len() && (#[trigger] self.resources@[q]).live implies {
                let info = self.resources@[q];
                &&& info.format.spec_bytes_per_pixel() is Some
                &&& 1 <= info.width <= self.max_dimension
                &&& 1 <= info.height <= self.max_dimension
                &&& self.pixels@[q].len() == info.height
                &&& forall|r: int|
                    0 <= r < info.height ==> (#[trigger] self.pixels@[q]@[r]).len() == row_bytes(
                        info,
                    )
            } by {
                if q < i {
                    assert(old_self.resources@[q] == self.resources@[q]);
                    assert(old_self.pixels@[q] == self.pixels@[q]);
                }
            }
        }
        Ok(ResourceHandle((i + 1) as u32))
    }

    pub open spec fn read_check(self, r: ResourceHandle, rect: Rect) -> Option<Failure> {
        if !self.live_resource(r) {
            Some(Failure::InvalidHandle)
        } else if !rect_within(self.resources()[r.0 - 1], rect) {
            Some(Failure::HardwareRejected)
        } else {
            None
        }
    }

    /// The bytes of `rect` (in pixels) of a resource, row after row, with no
    /// gap between rows.
    pub fn read(&self, r: ResourceHandle, rect: Rect) -> (out: Result<Vec<u8>, Failure>)
        requires
            self.wf(),
        ensures
            match self.read_check(r, rect) {
                Some(e) => out == Err::<Vec<u8>, Failure>(e),
                None => {
                    let i = r.0 - 1;
                    let info = self.resources()[i];
                    let bpp = info.format.spec_bytes_per_pixel().unwrap();
                    &&& out is Ok
                    &&& out.unwrap()@ == region(
                        self.content(i),
                        rect.x * bpp,
                        rect.y as int,
                        rect.width * bpp,
                        rect.height as int,
                    )
                },
            },
    {
        if r.0 == 0 || r.0 as usize > self.resources.len() || !self.resources[r.0 as usize - 1].live {
            return Err(Failure::InvalidHandle);
        }
        let i = r.0 as usize - 1;
        let info = self.resources[i];
        if !(0 <= rect.x && 0 <= rect.y && 0 <= rect.width && 0 <= rect.height
            && rect.x as i64 + rect.width as i64 <= info.width as i64 && rect.y as i64
            + rect.height as i64 <= info.height as i64) {
            return Err(Failure::HardwareRejected);
        }
        let bpp = match info.format.bytes_per_pixel() {
            Some(b) => b,
            None => {
                return Err(Failure::HardwareRejected);
            },
        };
        assert(self.resources@[i as int].live);
        let ghost m = self.max_dimension as int;
        assert(rect.height * (rect.width * bpp) <= usize::MAX && rect.x * bpp + rect.width * bpp
            <= usize::MAX) by (nonlinear_arith)
            requires
                0 <= rect.x,
                0 <= rect.width,
                0 <= rect.height,
                rect.x + rect.width <= m,
                rect.height <= m,
                bpp <= 4,
                m * m * 4 <= usize::MAX,
        ;
        assert(row_bytes(info) == info.width * bpp);
        assert(rect.x * bpp + rect.width * bpp <= info.width * bpp) by (nonlinear_arith)
            requires
                rect.x + rect.width <= info.width,
        ;
        let x0 = rect.x as usize * bpp;
        let wb = rect.width as usize * bpp;
        let out = read_rows(&self.pixels[i], x0, rect.y as usize, wb, rect.height as usize);
        Ok(out)
    }

    pub open spec fn write_check(
        self,
        r: ResourceHandle,
        rect: Rect,
        data_len: int,
        pitch: int,
    ) -> Option<Failure> {
        if !self.live_resource(r) {
            Some(Failure::InvalidHandle)
        } else if !rect_within(self.resources()[r.0 - 1], rect) {
            Some(Failure::HardwareRejected)
        } else if !holds_rows(
            data_len,
            pitch,
            rect.width * self.resources()[r.0 - 1].format.spec_bytes_per_pixel().unwrap(),
            rect.height as int,
        ) {
            Some(Failure::HardwareRejected)
        } else {
            None
        }
    }

    /// Copies `data`, whose rows start `pitch` bytes apart, into `rect` (in
    /// pixels) of a resource. Fails where the rectangle leaves the resource
    /// or `data` is too short or its pitch shorter than a row of `rect`.
    pub fn write(&mut self, r: ResourceHandle, rect: Rect, data: &Vec<u8>, pitch: usize) -> (out:
        Result<(), Failure>)
        requires
            old(self).wf(),
        ensures
            final(self).wf(),
            match old(self).write_check(r, rect, data.len() as int, pitch as int) {
                Some(e) => out == Err::<(), Failure>(e) && *final(self) == *old(self),
                None => {
                    let i = r.0 - 1;
                    let info = old(self).resources()[i];
                    let bpp = info.format.spec_bytes_per_pixel().unwrap();
                    &&& out is Ok
                    &&& final(self).resources() == old(self).resources()
                    &&& final(self).content(i) == written(
                        old(self).content(i),
                        rect.x * bpp,
                        rect.y as int,
                        rect.width * bpp,
                        rect.height as int,
                        data@,
                        pitch as int,
                    )
                    &&& final(self).palette(i) == old(self).palette(i)
                    &&& final(self).same_content_but(*old(self), i)
                    &&& final(self).same_but_resources(*old(self))
                },
            },
    {
        if r.0 == 0 || r.0 as usize > self.resources.len() || !self.resources[r.0 as usize - 1].live {
            return Err(Failure::InvalidHandle);
        }
        let i = r.0 as usize - 1;
        let info = self.resources[i];
        if !(0 <= rect.x && 0 <= rect.y && 0 <= rect.width && 0 <= rect.height
            && rect.x as i64 + rect.width as i64 <= info.width as i64 && rect.y as i64
            + rect.height as i64 <= info.height as i64) {
            return Err(Failure::HardwareRejected);
        }
        let bpp = match info.format.bytes_per_pixel() {
            Some(b) => b,
            None => {
                return Err(Failure::HardwareRejected);
            },
        };
        assert(self.resources@[i as int].live);
        let ghost m = self.max_dimension as int;
        assert(rect.height * (rect.width * bpp) <= usize::MAX && rect.x * bpp + rect.width * bpp
            <= usize::MAX) by (nonlinear_arith)
            requires
                0 <= rect.x,
                0 <= rect.width,
                0 <= rect.height,
                rect.x + rect.width <= m,
                rect.height <= m,
                bpp <= 4,
                m * m * 4 <= usize::MAX,
        ;
        assert(row_bytes(info) == info.width * bpp);
        assert(rect.x * bpp + rect.width * bpp <= info.width * bpp) by (nonlinear_arith)
            requires
                rect.x + rect.width <= info.width,
        ;
        let x0 = rect.x as usize * bpp;
        let wb = rect.width as usize * bpp;
        let h = rect.height as usize;
        if pitch < wb {
            return Err(Failure::HardwareRejected);
        }
        if h > 0 {
            let fits = match (h - 1).checked_mul(pitch) {
                Some(p) => match p.checked_add(wb) {
                    Some(end) => end <= data.len(),
                    None => false,
                },
                None => false,
            };
            if !fits {
                return Err(Failure::HardwareRejected);
            }
        }
        let ghost old_self = *self;
        write_rows(&mut self.pixels[i], x0, rect.y as usize, wb, h, data, pitch);
        proof {
            assert forall|j: int| 0 <= j < old_self.resources().len() && j != i implies self.content(
                j,
            ) == old_self.content(j) && self.palette(j) == old_self.palette(j) by {
                assert(self.pixels@[j] == old_self.pixels@[j]);
            }
            assert forall|q: int|
                0 <= q < self.resources.len() && (#[trigger] self.resources@[q]).live implies {
                let info = self.resources@[q];
                &&& info.format.spec_bytes_per_pixel() is Some
                &&& 1 <= info.width <= self.max_dimension
                &&& 1 <= info.height <= self.max_dimension
                &&& self.pixels@[q].len() == info.height
                &&& forall|r: int|
                    0 <= r < info.height ==> (#[trigger] self.pixels@[q]@[r]).len() == row_bytes(
                        info,
                    )
            } by {
                if q != i {
                    assert(old_self.pixels@[q] == self.pixels@[q]);
                } else {
                    assert(rows_view(self.pixels@[q]@).len() == self.pixels@[q]@.len());
                    assert(rows_view(old_self.pixels@[q]@).len() == old_self.pixels@[q]@.len());
                    assert(self.pixels@[q].len() == info.height);
                    assert forall|r: int| 0 <= r < info.height implies (
                    #[trigger] self.pixels@[q]@[r]).len() == row_bytes(info) by {
                        assert(rows_view(self.pixels@[q]@)[r] == self.pixels@[q]@[r]@);
                        assert(rows_view(old_self.pixels@[q]@)[r] == old_self.pixels@[q]@[r]@);
                    }
                }
            }
        }
        Ok(())
    }

    pub open spec fn write_palette_check(self, r: ResourceHandle, n: int, offset: int) -> Option<
        Failure,
    > {
        if !self.live_resource(r) {
            Some(Failure::InvalidHandle)
        } else if self.resources()[r.0 - 1].format.spec_palette_len() is None || offset + n
            > self.palette(r.0 - 1).len() {
            Some(Failure::HardwareRejected)
        } else {
            None
        }
    }

    /// Sets the palette entries of a palettised resource from `offset` on.
    /// Fails for a format without a palette and for entries past its end.
    pub fn write_palette(&mut self, r: ResourceHandle, entries: &Vec<u32>, offset: usize) -> (out:
        Result<(), Failure>)
        requires
            old(self).wf(),
        ensures
            final(self).wf(),
            match old(self).write_palette_check(r, entries.len() as int, offset as int) {
                Some(e) => out == Err::<(), Failure>(e) && *final(self) == *old(self),
                None => {
                    let i = r.0 - 1;
                    let p = old(self).palette(i);
                    &&& out is Ok
                    &&& final(self).resources() == old(self).resources()
                    &&& final(self).palette(i) == Seq::new(
                        p.len(),
                        |k: int|
                            if offset <= k < offset + entries.len() {
                                entries@[k - offset]
                            } else {
                                p[k]
                            },
                    )
                    &&& final(self).content(i) == old(self).content(i)
                    &&& final(self).same_content_but(*old(self), i)
                    &&& final(self).same_but_resources(*old(self))
                },
            },
    {
        if !self.is_live_resource(r) {
            return Err(Failure::InvalidHandle);
        }
        let i = (r.0 - 1) as usize;
        if self.resources[i].format.palette_len().is_none() || entries.len() > self.palettes[i].len()
            || offset > self.palettes[i].len() - entries.len() {
            return Err(Failure::HardwareRejected);
        }
        let ghost old_self = *self;
        let ghost p = self.palettes@[i as int]@;
        assert(offset + entries.len() <= self.palettes[i as int].len());
        let mut k: usize = 0;
        while k < entries.len()
            invariant
                k <= entries.len(),
                i < self.palettes.len(),
                offset + entries.len() <= p.len(),
                offset + entries.len() <= usize::MAX,
                self.palettes@[i as int]@ == Seq::new(
                    p.len(),
                    |j: int|
                        if offset <= j < offset + k {
                            entries@[j - offset]
                        } else {
                            p[j]
                        },
                ),
                self.max_dimension == old_self.max_dimension,
                self.outputs == old_self.outputs,
                self.resources == old_self.resources,
                self.pixels == old_self.pixels,
                self.displays == old_self.displays,
                self.elements == old_self.elements,
                self.updates == old_self.updates,
                self.batches == old_self.batches,
                self.queue == old_self.queue,
                self.palettes.len() == old_self.palettes.len(),
                forall|j: int|
                    0 <= j < self.palettes.len() && j != i ==> self.palettes@[j]
                        == old_self.palettes@[j],
            decreases entries.len() - k,
        {
            self.palettes[i][offset + k] = entries[k];
            assert(self.palettes@[i as int]@ =~= Seq::new(
                p.len(),
                |j: int|
                    if offset <= j < offset + k + 1 {
                        entries@[j - offset]
                    } else {
                        p[j]
                    },
            ));
            k = k + 1;
        }
        proof {
            assert forall|q: int|
                0 <= q < self.resources.len() && (#[trigger] self.resources@[q]).live implies {
                let info = self.resources@[q];
                &&& info.format.spec_bytes_per_pixel() is Some
                &&& 1 <= info.width <= self.max_dimension
                &&& 1 <= info.height <= self.max_dimension
                &&& self.pixels@[q].len() == info.height
                &&& forall|r: int|
                    0 <= r < info.height ==> (#[trigger] self.pixels@[q]@[r]).len() == row_bytes(
                        info,
                    )
            } by {
                assert(old_self.resources@[q] == self.resources@[q]);
            }
        }
        Ok(())
    }

    /// Whether an element, a display or a change not yet applied still needs
    /// resource `r`: as the source or the mask of an element that is not
    /// removed, as the destination of an open display, or as the new source,
    /// mask or destination that an update not yet applied carries.
    pub open spec fn referenced(self, r: ResourceHandle) -> bool {
        let els = self.scene().elements;
        let ds = self.scene().displays;
        ||| exists|i: int|
            0 <= i < els.len() && (#[trigger] els[i]).state != ElementState::Removed && (
            els[i].source == r || els[i].alpha.mask == r)
        ||| exists|i: int| 0 <= i < ds.len() && (#[trigger] ds[i]).open && ds[i].destination == r
        ||| exists|u: int, k: int|
            0 <= u < self.updates().len() && self.updates()[u].state != UpdateState::Applied && 0
                <= k < self.batch(u).len() && op_references(#[trigger] self.batch(u)[k], r)
    }

    /// Whether resource `r` is still needed (see `referenced`).
    pub fn is_referenced(&self, r: ResourceHandle) -> (b: bool)
        requires
            self.wf(),
        ensures
            b == self.referenced(r),
    {
        let mut i: usize = 0;
        while i < self.elements.len()
            invariant
                i <= self.elements.len(),
                forall|j: int|
                    0 <= j < i ==> !((#[trigger] self.elements@[j]).state != ElementState::Removed
                        && (self.elements@[j].source == r || self.elements@[j].alpha.mask == r)),
            decreases self.elements.len() - i,
        {
            let e = self.elements[i];
            if e.state != ElementState::Removed && (e.source == r || e.alpha.mask == r) {
                assert(self.scene().elements[i as int] == e);
                return true;
            }
            i = i + 1;
        }
        let mut d: usize = 0;
        while d < self.displays.len()
            invariant
                d <= self.displays.len(),
                forall|j: int|
                    0 <= j < d ==> !((#[trigger] self.displays@[j]).open
                        && self.displays@[j].destination == r),
            decreases self.displays.len() - d,
        {
            if self.displays[d].open && self.displays[d].destination == r {
                assert(self.scene().displays[d as int] == self.displays@[d as int]);
                return true;
            }
            d = d + 1;
        }
        let mut u: usize = 0;
        while u < self.updates.len()
            invariant
                self.wf(),
                u <= self.updates.len(),
                forall|v: int, k: int|
                    0 <= v < u && self.updates@[v].state != UpdateState::Applied && 0 <= k
                        < self.batch(v).len() ==> !op_references(#[trigger] self.batch(v)[k], r),
            decreases self.updates.len() - u,
        {
            if self.updates[u].state != UpdateState::Applied {
                let mut k: usize = 0;
                while k < self.batches[u].len()
                    invariant
                        self.wf(),
                        u < self.updates.len(),
                        self.updates@[u as int].state != UpdateState::Applied,
                        k <= self.batch(u as int).len(),
                        forall|j: int| 0 <= j < k ==> !op_references(#[trigger] self.batch(u as int)[j], r),
                    decreases self.batches[u as int].len() - k,
                {
                    let op = self.batches[u][k];
                    let hit = match op {
                        Op::Source { source, .. } => source == r,
                        Op::Attributes { change, mask, .. } => change & ELEMENT_CHANGE_MASK_RESOURCE
                            != 0 && mask == r,
                        Op::Destination { resource, .. } => resource == r,
                        _ => false,
                    };
                    if hit {
                        assert(op_references(self.batch(u as int)[k as int], r));
                        return true;
                    }
                    k = k + 1;
                }
            }
            u = u + 1;
        }
        false
    }

    pub open spec fn delete_check(self, r: ResourceHandle) -> Option<Failure> {
        if !self.live_resource(r) {
            Some(Failure::InvalidHandle)
        } else if self.referenced(r) {
            Some(Failure::HardwareRejected)
        } else {
            None
        }
    }

    /// Releases a resource. Fails, and keeps the resource, while anything
    /// still needs it (see `referenced`).
    pub fn delete(&mut self, r: ResourceHandle) -> (out: Result<(), Failure>)
        requires
            old(self).wf(),
        ensures
            final(self).wf(),
            match old(self).delete_check(r) {
                Some(e) => out == Err::<(), Failure>(e) && *final(self) == *old(self),
                None => {
                    let i = r.0 - 1;
                    &&& out is Ok
                    &&& final(self).resources() == old(self).resources().update(
                        i,
                        ResourceInfo { live: false, ..old(self).resources()[i] },
                    )
                    &&& final(self).content(i).len() == 0
                    &&& final(self).palette(i).len() == 0
                    &&& final(self).same_content_but(*old(self), i)
                    &&& final(self).same_but_resources(*old(self))
                },
            },
    {
        if r.0 == 0 || r.0 as usize > self.resources.len() || !self.resources[r.0 as usize - 1].live {
            return Err(Failure::InvalidHandle);
        }
        if self.is_referenced(r) {
            return Err(Failure::HardwareRejected);
        }
        let i = r.0 as usize - 1;
        let ghost old_self = *self;
        let info = self.resources[i];
        self.resources.set(i, ResourceInfo { live: false, ..info });
        self.pixels.set(i, Vec::new());
        self.palettes.set(i, Vec::new());
        proof {
            assert forall|j: int| 0 <= j < old_self.resources().len() && j != i implies self.content(
                j,
            ) == old_self.content(j) && self.palette(j) == old_self.palette(j) by {
                assert(self.pixels@[j] == old_self.pixels@[j]);
                assert(self.palettes@[j] == old_self.palettes@[j]);
            }
            assert forall|q: int|
                0 <= q < self.resources.len() && (#[trigger] self.resources@[q]).live implies {
                let info = self.resources@[q];
                &&& info.format.spec_bytes_per_pixel() is Some
                &&& 1 <= info.width <= self.max_dimension
                &&& 1 <= info.height <= self.max_dimension
                &&& self.pixels@[q].len() == info.height
                &&& forall|r: int|
                    0 <= r < info.height ==> (#[trigger] self.pixels@[q]@[r]).len() == row_bytes(
                        info,
                    )
            } by {
                assert(old_self.resources@[q] == self.resources@[q]);
                assert(old_self.pixels@[q] == self.pixels@[q]);
            }
        }
        Ok(())
    }
}

impl Compositor {
    /// Updates of the queue, by table index, in submission order.
    pub open spec fn queued_batches(self) -> Seq<Seq<Op>> {
        self.queued().map_values(|h: UpdateHandle| self.batch(h.0 - 1))
    }

    /// State of the update at index `v` once the queue is flushed.
    pub open spec fn flushed_slot(self, v: int) -> UpdateSlot {
        if self.queued().contains(UpdateHandle((v + 1) as u32)) {
            UpdateSlot { state: UpdateState::Applied, ..self.updates()[v] }
        } else {
            self.updates()[v]
        }
    }

    fn apply_op_exec(&mut self, op: Op)
        requires
            old(self).tables_wf(),
            op_bounded(op, old(self).resources.len() as int),
        ensures
            final(self).tables_wf(),
            final(self).scene() == apply_op(old(self).scene(), op),
            final(self).max_dimension == old(self).max_dimension,
            final(self).outputs == old(self).outputs,
            final(self).resources == old(self).resources,
            final(self).pixels == old(self).pixels,
            final(self).palettes == old(self).palettes,
            final(self).updates == old(self).updates,
            final(self).batches == old(self).batches,
            final(self).queue == old(self).queue,
    {
        proof {
            lemma_apply_op_bounded(self.scene(), op, self.resources.len() as int);
            lemma_apply_op_sized(self.scene(), op, self.outputs@, self.resources.len() as int);
        }
        match op {
            Op::Add { element } => {
                if element < self.elements.len() {
                    let e = self.elements[element];
                    self.elements.set(element, ElementSlot { state: ElementState::Live, ..e });
                }
            },
            Op::Remove { element } => {
                if element < self.elements.len() {
                    let e = self.elements[element];
                    self.elements.set(element, ElementSlot { state: ElementState::Removed, ..e });
                }
            },
            Op::Layer { element, layer } => {
                if element < self.elements.len() {
                    let e = self.elements[element];
                    self.elements.set(element, ElementSlot { layer, ..e });
                }
            },
            Op::Source { element, source } => {
                if element < self.elements.len() {
                    let e = self.elements[element];
                    self.elements.set(element, ElementSlot { source, ..e });
                }
            },
            Op::Attributes { element, change, layer, opacity, mask, dest_rect, src_rect, transform } => {
                if element < self.elements.len() {
                    let e = self.elements[element];
                    let changed = ElementSlot {
                        layer: if change & ELEMENT_CHANGE_LAYER != 0 {
                            layer
                        } else {
                            e.layer
                        },
                        dest_rect: if change & ELEMENT_CHANGE_DEST_RECT != 0 {
                            dest_rect
                        } else {
                            e.dest_rect
                        },
                        src_rect: if change & ELEMENT_CHANGE_SRC_RECT != 0 {
                            src_rect
                        } else {
                            e.src_rect
                        },
                        alpha: VCAlpha {
                            flags: e.alpha.flags,
                            opacity: if change & ELEMENT_CHANGE_OPACITY != 0 {
                                opacity as u32
                            } else {
                                e.alpha.opacity
                            },
                            mask: if change & ELEMENT_CHANGE_MASK_RESOURCE != 0 {
                                mask
                            } else {
                                e.alpha.mask
                            },
                        },
                        transform: if change & ELEMENT_CHANGE_TRANSFORM != 0 {
                            transform
                        } else {
                            e.transform
                        },
                        ..e
                    };
                    self.elements.set(element, changed);
                }
            },
            Op::Modified { .. } => {},
            Op::Background { display, red, green, blue } => {
                if display < self.displays.len() {
                    let d = self.displays[display];
                    self.displays.set(
                        display,
                        DisplaySlot {
                            background_red: red,
                            background_green: green,
                            background_blue: blue,
                            ..d
                        },
                    );
                }
            },
            Op::Destination { display, resource } => {
                if display < self.displays.len() {
                    let d = self.displays[display];
                    self.displays.set(display, DisplaySlot { destination: resource, ..d });
                }
            },
        }
        assert(self.scene() =~= apply_op(old(self).scene(), op));
    }

    /// Applies the changes of the update at index `b`, in order.
    fn apply_batch(&mut self, b: usize)
        requires
            old(self).tables_wf(),
            b < old(self).batches.len(),
        ensures
            final(self).tables_wf(),
            final(self).scene() == apply_ops(old(self).scene(), old(self).batch(b as int)),
            final(self).max_dimension == old(self).max_dimension,
            final(self).outputs == old(self).outputs,
            final(self).resources == old(self).resources,
            final(self).pixels == old(self).pixels,
            final(self).palettes == old(self).palettes,
            final(self).updates == old(self).updates,
            final(self).batches == old(self).batches,
            final(self).queue == old(self).queue,
    {
        let ghost s0 = self.scene();
        let ghost ops = self.batch(b as int);
        let n = self.batches[b].len();
        let mut k: usize = 0;
        while k < n
            invariant
                self.tables_wf(),
                b < self.batches.len(),
                k <= n,
                n == ops.len(),
                ops == self.batch(b as int),
                self.scene() == apply_ops(s0, ops.subrange(0, k as int)),
                self.max_dimension == old(self).max_dimension,
                self.outputs == old(self).outputs,
                self.resources == old(self).resources,
                self.pixels == old(self).pixels,
                self.palettes == old(self).palettes,
                self.updates == old(self).updates,
                self.batches == old(self).batches,
                self.queue == old(self).queue,
            decreases n - k,
        {
            let op = self.batches[b][k];
            assert(op_bounded(self.batches@[b as int]@[k as int], self.resources.len() as int));
            self.apply_op_exec(op);
            assert(ops.subrange(0, k + 1).drop_last() =~= ops.subrange(0, k as int));
            k = k + 1;
        }
        assert(ops.subrange(0, n as int) =~= ops);
    }

    /// Applies every update of the queue in submission order, marks each
    /// applied and empties the queue.
    fn flush(&mut self)
        requires
            old(self).wf(),
        ensures
            final(self).wf(),
            final(self).scene() == apply_batches(old(self).scene(), old(self).queued_batches()),
            final(self).queued().len() == 0,
            final(self).updates().len() == old(self).updates().len(),
            forall|v: int|
                0 <= v < old(self).updates().len() ==> #[trigger] final(self).updates()[v]
                    == old(self).flushed_slot(v),
            final(self).max_dimension == old(self).max_dimension,
            final(self).outputs == old(self).outputs,
            final(self).resources == old(self).resources,
            final(self).pixels == old(self).pixels,
            final(self).palettes == old(self).palettes,
            final(self).batches == old(self).batches,
    {
        let ghost s0 = self.scene();
        let ghost qb = old(self).queued_batches();
        let ghost q = self.queue@;
        let n = self.queue.len();
        let mut k: usize = 0;
        while k < n
            invariant
                k <= n,
                n == q.len(),
                q == self.queue@,
                qb == old(self).queued_batches(),
                qb.len() == n,
                q == old(self).queued(),
                self.scene() == apply_batches(s0, qb.subrange(0, k as int)),
                self.max_dimension == old(self).max_dimension,
                self.outputs == old(self).outputs,
                self.resources == old(self).resources,
                self.pixels == old(self).pixels,
                self.palettes == old(self).palettes,
                self.batches == old(self).batches,
                self.updates.len() == old(self).updates.len(),
                forall|v: int|
                    0 <= v < self.updates.len() ==> #[trigger] self.updates@[v] == (
                    if q.subrange(0, k as int).contains(UpdateHandle((v + 1) as u32)) {
                        UpdateSlot { state: UpdateState::Applied, ..old(self).updates@[v] }
                    } else {
                        old(self).updates@[v]
                    }),
                self.tables_wf(),
                forall|j: int| 0 <= j < q.len() ==> 1 <= (#[trigger] q[j]).0 <= self.updates.len(),
            decreases n - k,
        {
            let h = self.queue[k];
            assert(1 <= q[k as int].0 <= self.updates.len());
            let b = (h.0 - 1) as usize;
            assert(qb[k as int] == old(self).batch(b as int));
            self.apply_batch(b);
            let slot = self.updates[b];
            self.updates.set(b, UpdateSlot { state: UpdateState::Applied, ..slot });
            proof {
                assert(qb.subrange(0, k + 1).drop_last() =~= qb.subrange(0, k as int));
                assert forall|v: int| 0 <= v < self.updates.len() implies #[trigger] self.updates@[v]
                    == (if q.subrange(0, k + 1).contains(UpdateHandle((v + 1) as u32)) {
                    UpdateSlot { state: UpdateState::Applied, ..old(self).updates@[v] }
                } else {
                    old(self).updates@[v]
                }) by {
                    assert(q.subrange(0, k + 1) =~= q.subrange(0, k as int).push(q[k as int]));
                    if v == b {
                        assert(q[k as int] == UpdateHandle((v + 1) as u32));
                        assert(q.subrange(0, k + 1)[k as int] == UpdateHandle((v + 1) as u32));
                    } else {
                        if q.subrange(0, k + 1).contains(UpdateHandle((v + 1) as u32)) {
                            let j = choose|j: int|
                                0 <= j < k + 1 && #[trigger] q.subrange(0, k + 1)[j] == UpdateHandle(
                                    (v + 1) as u32,
                                );
                            assert(j != k);
                            assert(q.subrange(0, k as int)[j] == UpdateHandle((v + 1) as u32));
                        }
                    }
                }
            }
            k = k + 1;
        }
        self.queue = Vec::new();
        proof {
            assert(qb.subrange(0, n as int) =~= qb);
            assert(q.subrange(0, n as int) =~= q);
            assert forall|v: int| 0 <= v < old(self).updates().len() implies #[trigger] self.updates()[v]
                == old(self).flushed_slot(v) by {}
        }
    }

    /// Resources, their bytes, the outputs and the changes each update
    /// carries are as in `other`.
    pub open spec fn same_tables(self, other: Compositor) -> bool {
        &&& self.max_dimension() == other.max_dimension()
        &&& self.outputs() == other.outputs()
        &&& self.resources() == other.resources()
        &&& forall|j: int|
            0 <= j < other.resources().len() ==> self.content(j) == other.content(j)
                && self.palette(j) == other.palette(j)
    }

    pub open spec fn update_check(self, u: UpdateHandle) -> Option<Failure> {
        if !(1 <= u.0 <= self.updates().len()) {
            Some(Failure::InvalidHandle)
        } else if self.updates()[u.0 - 1].state != UpdateState::Open {
            Some(Failure::ProtocolMisuse)
        } else {
            None
        }
    }

    /// Opens a new update with the given scheduling priority. Fails only
    /// where the table of updates is full.
    pub fn start(&mut self, priority: i32) -> (r: Result<UpdateHandle, Failure>)
        requires
            old(self).wf(),
        ensures
            final(self).wf(),
            if old(self).updates().len() >= TABLE_CAPACITY {
                r == Err::<UpdateHandle, Failure>(Failure::HardwareRejected) && *final(self) == *old(
                    self,
                )
            } else {
                let i = old(self).updates().len() as int;
                &&& r == Ok::<UpdateHandle, Failure>(UpdateHandle((i + 1) as u32))
                &&& final(self).updates() == old(self).updates().push(
                    UpdateSlot { state: UpdateState::Open, priority },
                )
                &&& final(self).batch(i).len() == 0
                &&& forall|j: int| 0 <= j < i ==> final(self).batch(j) == old(self).batch(j)
                &&& final(self).scene() == old(self).scene()
                &&& final(self).queued() == old(self).queued()
                &&& final(self).same_tables(*old(self))
            },
    {
        if self.updates.len() >= TABLE_CAPACITY {
            return Err(Failure::HardwareRejected);
        }
        let ghost old_self = *self;
        let i = self.updates.len();
        self.updates.push(UpdateSlot { state: UpdateState::Open, priority });
        self.batches.push(Vec::new());
        proof {
            assert forall|j: int| 0 <= j < i implies self.batch(j) == old_self.batch(j) by {
                assert(self.batches@[j] == old_self.batches@[j]);
            }
            assert forall|u: int, k: int|
                0 <= u < self.batches.len() && 0 <= k < self.batches@[u].len() implies op_bounded(
                #[trigger] self.batches@[u]@[k],
                self.resources.len() as int,
            ) by {
                assert(self.batches@[u] == old_self.batches@[u]);
            }
            assert forall|k: int| 0 <= k < self.queue.len() implies {
                let u = (#[trigger] self.queue@[k]).0 as int;
                &&& 1 <= u <= self.updates.len()
                &&& self.updates@[u - 1].state == UpdateState::Queued
            } by {
                assert(self.updates@[self.queue@[k].0 - 1] == old_self.updates@[self.queue@[k].0
                    - 1]);
            }
            assert forall|q: int|
                0 <= q < self.resources.len() && (#[trigger] self.resources@[q]).live implies {
                let info = self.resources@[q];
                &&& info.format.spec_bytes_per_pixel() is Some
                &&& 1 <= info.width <= self.max_dimension
                &&& 1 <= info.height <= self.max_dimension
                &&& self.pixels@[q].len() == info.height
                &&& forall|r: int|
                    0 <= r < info.height ==> (#[trigger] self.pixels@[q]@[r]).len() == row_bytes(
                        info,
                    )
            } by {
                assert(old_self.resources@[q] == self.resources@[q]);
            }
        }
        Ok(UpdateHandle((i + 1) as u32))
    }

    /// Submits an update and waits until it is applied: updates submitted
    /// earlier without waiting are applied first, in submission order, then
    /// this update's changes, in the order they were issued. Every update
    /// applied is spent.
    pub fn submit_sync(&mut self, u: UpdateHandle) -> (r: Result<(), Failure>)
        requires
            old(self).wf(),
        ensures
            final(self).wf(),
            match old(self).update_check(u) {
                Some(e) => r == Err::<(), Failure>(e) && *final(self) == *old(self),
                None => {
                    let i = u.0 - 1;
                    &&& r is Ok
                    &&& final(self).scene() == apply_ops(
                        apply_batches(old(self).scene(), old(self).queued_batches()),
                        old(self).batch(i),
                    )
                    &&& final(self).queued().len() == 0
                    &&& final(self).updates().len() == old(self).updates().len()
                    &&& forall|v: int|
                        0 <= v < old(self).updates().len() ==> #[trigger] final(self).updates()[v]
                            == if v == i {
                            UpdateSlot { state: UpdateState::Applied, ..old(self).updates()[v] }
                        } else {
                            old(self).flushed_slot(v)
                        }
                    &&& forall|j: int|
                        0 <= j < old(self).updates().len() ==> final(self).batch(j) == old(
                            self,
                        ).batch(j)
                    &&& final(self).same_tables(*old(self))
                },
            },
    {
        if u.0 == 0 || u.0 as usize > self.updates.len() {
            return Err(Failure::InvalidHandle);
        }
        let i = (u.0 - 1) as usize;
        if self.updates[i].state != UpdateState::Open {
            return Err(Failure::ProtocolMisuse);
        }
        let ghost old_self = *self;
        self.flush();
        proof {
            assert(!old_self.queued().contains(u)) by {
                if old_self.queued().contains(u) {
                    let k = choose|k: int| 0 <= k < old_self.queue.len() && #[trigger] old_self.queue@[k] == u;
                    assert(old_self.updates@[u.0 - 1].state == UpdateState::Queued);
                }
            }
            assert(UpdateHandle((i + 1) as u32) == u);
        }
        let ghost mid = *self;
        self.apply_batch(i);
        let slot = self.updates[i];
        self.updates.set(i, UpdateSlot { state: UpdateState::Applied, ..slot });
        proof {
            assert(mid.batch(i as int) == old_self.batch(i as int));
            assert forall|j: int|
                0 <= j < old_self.resources().len() implies self.content(j) == old_self.content(j)
                && self.palette(j) == old_self.palette(j) by {}
        }
        Ok(())
    }

    /// Submits an update without waiting: it is applied at the next refresh
    /// (`vsync`), after the updates submitted before it.
    pub fn submit_async(&mut self, u: UpdateHandle) -> (r: Result<(), Failure>)
        requires
            old(self).wf(),
        ensures
            final(self).wf(),
            match old(self).update_check(u) {
                Some(e) => r == Err::<(), Failure>(e) && *final(self) == *old(self),
                None => {
                    let i = u.0 - 1;
                    &&& r is Ok
                    &&& final(self).scene() == old(self).scene()
                    &&& final(self).queued() == old(self).queued().push(u)
                    &&& final(self).updates() == old(self).updates().update(
                        i,
                        UpdateSlot { state: UpdateState::Queued, ..old(self).updates()[i] },
                    )
                    &&& forall|j: int|
                        0 <= j < old(self).updates().len() ==> final(self).batch(j) == old(
                            self,
                        ).batch(j)
                    &&& final(self).same_tables(*old(self))
                },
            },
    {
        if u.0 == 0 || u.0 as usize > self.updates.len() {
            return Err(Failure::InvalidHandle);
        }
        let i = (u.0 - 1) as usize;
        if self.updates[i].state != UpdateState::Open {
            return Err(Failure::ProtocolMisuse);
        }
        let ghost old_self = *self;
        let slot = self.updates[i];
        self.updates.set(i, UpdateSlot { state: UpdateState::Queued, ..slot });
        self.queue.push(u);
        proof {
            assert forall|k: int| 0 <= k < self.queue.len() implies {
                let v = (#[trigger] self.queue@[k]).0 as int;
                &&& 1 <= v <= self.updates.len()
                &&& self.updates@[v - 1].state == UpdateState::Queued
            } by {
                if k < old_self.queue.len() {
                    assert(self.queue@[k] == old_self.queue@[k]);
                }
            }
        }
        Ok(())
    }

    /// The refresh: applies every update submitted without waiting, in
    /// submission order, and gives their handles back in that order, for
    /// their completion callbacks.
    pub fn vsync(&mut self) -> (done: Vec<UpdateHandle>)
        requires
            old(self).wf(),
        ensures
            final(self).wf(),
            done@ == old(self).queued(),
            final(self).scene() == apply_batches(old(self).scene(), old(self).queued_batches()),
            final(self).queued().len() == 0,
            final(self).updates().len() == old(self).updates().len(),
            forall|v: int|
                0 <= v < old(self).updates().len() ==> #[trigger] final(self).updates()[v]
                    == old(self).flushed_slot(v),
            forall|j: int|
                0 <= j < old(self).updates().len() ==> final(self).batch(j) == old(self).batch(j),
            final(self).same_tables(*old(self)),
    {
        let mut done: Vec<UpdateHandle> = Vec::new();
        let mut k: usize = 0;
        while k < self.queue.len()
            invariant
                k <= self.queue.len(),
                done@ == self.queue@.subrange(0, k as int),
            decreases self.queue.len() - k,
        {
            done.push(self.queue[k]);
            assert(done@ =~= self.queue@.subrange(0, k + 1));
            k = k + 1;
        }
        assert(done@ =~= self.queue@);
        self.flush();
        done
    }

    /// The update at index `i` carries `op` as its latest change; nothing
    /// else differs from `other` but, for an added element, the scene.
    pub open spec fn with_op(self, other: Compositor, i: int, op: Op) -> bool {
        &&& self.batch(i) == other.batch(i).push(op)
        &&& forall|j: int|
            0 <= j < other.updates().len() && j != i ==> self.batch(j) == other.batch(j)
        &&& self.updates() == other.updates()
        &&& self.queued() == other.queued()
        &&& self.same_tables(other)
    }

    /// Whether `e` names an element that is not removed.
    pub open spec fn usable_element(self, e: ElementHandle) -> bool {
        1 <= e.0 <= self.scene().elements.len() && self.scene().elements[e.0 - 1].state
            != ElementState::Removed
    }

    /// Whether `d` names an open display.
    pub open spec fn open_display(self, d: DisplayHandle) -> bool {
        1 <= d.0 <= self.scene().displays.len() && self.scene().displays[d.0 - 1].open
    }

    /// Whether `m` is no resource (zero) or names a resource that exists.
    pub open spec fn optional_resource(self, m: ResourceHandle) -> bool {
        m.0 == 0 || self.live_resource(m)
    }

    pub open spec fn element_check(self, u: UpdateHandle, e: ElementHandle) -> Option<Failure> {
        if self.update_check(u) is Some {
            self.update_check(u)
        } else if !self.usable_element(e) {
            Some(Failure::InvalidHandle)
        } else {
            None
        }
    }

    fn check_update(&self, u: UpdateHandle) -> (r: Result<usize, Failure>)
        requires
            self.wf(),
        ensures
            match self.update_check(u) {
                Some(e) => r == Err::<usize, Failure>(e),
                None => r == Ok::<usize, Failure>((u.0 - 1) as usize),
            },
    {
        if u.0 == 0 || u.0 as usize > self.updates.len() {
            return Err(Failure::InvalidHandle);
        }
        let i = (u.0 - 1) as usize;
        if self.updates[i].state != UpdateState::Open {
            return Err(Failure::ProtocolMisuse);
        }
        Ok(i)
    }

    fn check_element(&self, u: UpdateHandle, e: ElementHandle) -> (r: Result<
        (usize, usize),
        Failure,
    >)
        requires
            self.wf(),
        ensures
            match self.element_check(u, e) {
                Some(f) => r == Err::<(usize, usize), Failure>(f),
                None => r == Ok::<(usize, usize), Failure>(
                    ((u.0 - 1) as usize, (e.0 - 1) as usize),
                ),
            },
    {
        let i = self.check_update(u)?;
        if e.0 == 0 || e.0 as usize > self.elements.len() || self.elements[(e.0 - 1) as usize].state
            == ElementState::Removed {
            return Err(Failure::InvalidHandle);
        }
        Ok((i, (e.0 - 1) as usize))
    }

    fn is_open_display(&self, d: DisplayHandle) -> (b: bool)
        ensures
            b == self.open_display(d),
    {
        d.0 != 0 && (d.0 as usize) <= self.displays.len() && self.displays[(d.0 - 1) as usize].open
    }

    fn is_live_resource(&self, r: ResourceHandle) -> (b: bool)
        ensures
            b == self.live_resource(r),
    {
        r.0 != 0 && (r.0 as usize) <= self.resources.len() && self.resources[(r.0 - 1) as usize].live
    }

    /// Appends a change to the update at index `i`.
    fn push_op(&mut self, i: usize, op: Op)
        requires
            old(self).wf(),
            i < old(self).updates().len(),
            op_bounded(op, old(self).resources().len() as int),
            op_in_scene(
                op,
                old(self).scene().elements.len() as int,
                old(self).scene().displays.len() as int,
            ),
        ensures
            final(self).wf(),
            final(self).with_op(*old(self), i as int, op),
            final(self).scene() == old(self).scene(),
    {
        let ghost old_self = *self;
        self.batches[i].push(op);
        proof {
            assert forall|j: int|
                0 <= j < old_self.updates().len() && j != i implies self.batch(j) == old_self.batch(
                j,
            ) by {
                assert(self.batches@[j] == old_self.batches@[j]);
            }
            assert forall|u: int, k: int|
                0 <= u < self.batches.len() && 0 <= k < self.batches@[u].len() implies op_bounded(
                #[trigger] self.batches@[u]@[k],
                self.resources.len() as int,
            ) by {
                if u != i {
                    assert(self.batches@[u] == old_self.batches@[u]);
                } else if k < old_self.batches@[u].len() {
                    assert(self.batches@[u]@[k] == old_self.batches@[u]@[k]);
                }
            }
            assert forall|u: int, k: int|
                0 <= u < self.batches.len() && 0 <= k < self.batches@[u].len() implies op_in_scene(
                #[trigger] self.batches@[u]@[k],
                self.elements.len() as int,
                self.displays.len() as int,
            ) by {
                if u != i {
                    assert(self.batches@[u] == old_self.batches@[u]);
                } else if k < old_self.batches@[u].len() {
                    assert(self.batches@[u]@[k] == old_self.batches@[u]@[k]);
                }
            }
            assert forall|q: int|
                0 <= q < self.resources.len() && (#[trigger] self.resources@[q]).live implies {
                let info = self.resources@[q];
                &&& info.format.spec_bytes_per_pixel() is Some
                &&& 1 <= info.width <= self.max_dimension
                &&& 1 <= info.height <= self.max_dimension
                &&& self.pixels@[q].len() == info.height
                &&& forall|r: int|
                    0 <= r < info.height ==> (#[trigger] self.pixels@[q]@[r]).len() == row_bytes(
                        info,
                    )
            } by {
                assert(old_self.resources@[q] == self.resources@[q]);
            }
        }
    }

    pub open spec fn add_check(
        self,
        u: UpdateHandle,
        display: DisplayHandle,
        src: ResourceHandle,
        alpha: VCAlpha,
        transform: Transform,
    ) -> Option<Failure> {
        if self.update_check(u) is Some {
            self.update_check(u)
        } else if !self.open_display(display) || !self.optional_resource(src) || !self.optional_resource(
            alpha.mask,
        ) {
            Some(Failure::InvalidHandle)
        } else if !transform.spec_is_placement() || self.scene().elements.len()
            >= TABLE_CAPACITY {
            Some(Failure::HardwareRejected)
        } else {
            None
        }
    }

    /// Adds, within update `u`, an element that shows `src_rect` (16.16 fixed
    /// point) of resource `src` at `dest_rect` of `display`, on `layer`. A
    /// zero `src` gives an element without a resource, whose pixels a
    /// rendering API draws. The handle is given at once; the element is
    /// composited once `u` is applied.
    pub fn add(
        &mut self,
        u: UpdateHandle,
        display: DisplayHandle,
        layer: i32,
        dest_rect: Rect,
        src: ResourceHandle,
        src_rect: Rect,
        protection: Protection,
        alpha: VCAlpha,
        clamp: Option<Clamp>,
        transform: Transform,
    ) -> (r: Result<ElementHandle, Failure>)
        requires
            old(self).wf(),
        ensures
            final(self).wf(),
            match old(self).add_check(u, display, src, alpha, transform) {
                Some(e) => r == Err::<ElementHandle, Failure>(e) && *final(self) == *old(self),
                None => {
                    let e = old(self).scene().elements.len();
                    &&& r == Ok::<ElementHandle, Failure>(ElementHandle((e + 1) as u32))
                    &&& final(self).scene().elements == old(self).scene().elements.push(
                        ElementSlot {
                            display,
                            layer,
                            dest_rect,
                            source: src,
                            src_rect,
                            protection,
                            alpha,
                            clamp,
                            transform,
                            state: ElementState::Pending,
                        },
                    )
                    &&& final(self).scene().displays == old(self).scene().displays
                    &&& final(self).with_op(*old(self), u.0 - 1, Op::Add { element: e as usize })
                },
            },
    {
        let i = self.check_update(u)?;
        if !self.is_open_display(display) || !(src.0 == 0 || self.is_live_resource(src)) || !(alpha.mask.0 == 0
            || self.is_live_resource(alpha.mask)) {
            return Err(Failure::InvalidHandle);
        }
        if !transform.is_placement() || self.elements.len() >= TABLE_CAPACITY {
            return Err(Failure::HardwareRejected);
        }
        let e = self.elements.len();
        let ghost old_self = *self;
        self.elements.push(
            ElementSlot {
                display,
                layer,
                dest_rect,
                source: src,
                src_rect,
                protection,
                alpha,
                clamp,
                transform,
                state: ElementState::Pending,
            },
        );
        proof {
            let n = self.resources.len() as int;
            assert forall|j: int| 0 <= j < self.elements.len() implies (
            #[trigger] self.scene().elements[j]).source.0 <= n && self.scene().elements[j].alpha.mask.0
                <= n by {
                if j < e {
                    assert(old_self.scene().elements[j] == self.scene().elements[j]);
                }
            }
            assert forall|j: int| 0 <= j < self.displays.len() implies (
            #[trigger] self.scene().displays[j]).destination.0 <= n by {
                assert(old_self.scene().displays[j] == self.scene().displays[j]);
            }
        }
        let ghost mid = *self;
        self.push_op(i, Op::Add { element: e });
        proof {
            assert(mid.same_tables(old_self));
            assert forall|j: int|
                0 <= j < old_self.resources().len() implies self.content(j) == old_self.content(j)
                && self.palette(j) == old_self.palette(j) by {}
        }
        Ok(ElementHandle((e + 1) as u32))
    }

    /// Removes, within update `u`, an element; once `u` is applied the
    /// element leaves its display's composition and its handle is spent.
    pub fn remove(&mut self, u: UpdateHandle, element: ElementHandle) -> (r: Result<(), Failure>)
        requires
            old(self).wf(),
        ensures
            final(self).wf(),
            match old(self).element_check(u, element) {
                Some(e) => r == Err::<(), Failure>(e) && *final(self) == *old(self),
                None => {
                    &&& r is Ok
                    &&& final(self).scene() == old(self).scene()
                    &&& final(self).with_op(
                        *old(self),
                        u.0 - 1,
                        Op::Remove { element: (element.0 - 1) as usize },
                    )
                },
            },
    {
        let (i, e) = self.check_element(u, element)?;
        self.push_op(i, Op::Remove { element: e });
        Ok(())
    }

    /// Moves, within update `u`, an element to another layer; nothing else
    /// of it changes.
    pub fn change_layer(&mut self, u: UpdateHandle, element: ElementHandle, layer: i32) -> (r:
        Result<(), Failure>)
        requires
            old(self).wf(),
        ensures
            final(self).wf(),
            match old(self).element_check(u, element) {
                Some(e) => r == Err::<(), Failure>(e) && *final(self) == *old(self),
                None => {
                    &&& r is Ok
                    &&& final(self).scene() == old(self).scene()
                    &&& final(self).with_op(
                        *old(self),
                        u.0 - 1,
                        Op::Layer { element: (element.0 - 1) as usize, layer },
                    )
                },
            },
    {
        let (i, e) = self.check_element(u, element)?;
        self.push_op(i, Op::Layer { element: e, layer });
        Ok(())
    }

    /// Marks, within update `u`, a rectangle of an element's source as
    /// rewritten in place, so that the compositor draws it again. The
    /// element's attributes do not change.
    pub fn modified(&mut self, u: UpdateHandle, element: ElementHandle, rect: Rect) -> (r: Result<
        (),
        Failure,
    >)
        requires
            old(self).wf(),
        ensures
            final(self).wf(),
            match old(self).element_check(u, element) {
                Some(e) => r == Err::<(), Failure>(e) && *final(self) == *old(self),
                None => {
                    &&& r is Ok
                    &&& final(self).scene() == old(self).scene()
                    &&& final(self).with_op(
                        *old(self),
                        u.0 - 1,
                        Op::Modified { element: (element.0 - 1) as usize, rect },
                    )
                },
            },
    {
        let (i, e) = self.check_element(u, element)?;
        self.push_op(i, Op::Modified { element: e, rect });
        Ok(())
    }

    pub open spec fn change_source_check(
        self,
        u: UpdateHandle,
        element: ElementHandle,
        src: ResourceHandle,
    ) -> Option<Failure> {
        if self.element_check(u, element) is Some {
            self.element_check(u, element)
        } else if !self.live_resource(src) {
            Some(Failure::InvalidHandle)
        } else {
            None
        }
    }

    /// Swaps, within update `u`, the resource that an element shows; its
    /// geometry does not change.
    pub fn change_source(&mut self, u: UpdateHandle, element: ElementHandle, src: ResourceHandle)
        -> (r: Result<(), Failure>)
        requires
            old(self).wf(),
        ensures
            final(self).wf(),
            match old(self).change_source_check(u, element, src) {
                Some(e) => r == Err::<(), Failure>(e) && *final(self) == *old(self),
                None => {
                    &&& r is Ok
                    &&& final(self).scene() == old(self).scene()
                    &&& final(self).with_op(
                        *old(self),
                        u.0 - 1,
                        Op::Source { element: (element.0 - 1) as usize, source: src },
                    )
                },
            },
    {
        let (i, e) = self.check_element(u, element)?;
        if !self.is_live_resource(src) {
            return Err(Failure::InvalidHandle);
        }
        self.push_op(i, Op::Source { element: e, source: src });
        Ok(())
    }

    pub open spec fn change_attributes_check(
        self,
        u: UpdateHandle,
        element: ElementHandle,
        change: u32,
        mask: ResourceHandle,
        transform: Transform,
    ) -> Option<Failure> {
        if self.element_check(u, element) is Some {
            self.element_check(u, element)
        } else if selects(change, ELEMENT_CHANGE_MASK_RESOURCE) && !self.optional_resource(mask) {
            Some(Failure::InvalidHandle)
        } else if selects(change, ELEMENT_CHANGE_TRANSFORM) && !transform.spec_is_placement() {
            Some(Failure::HardwareRejected)
        } else {
            None
        }
    }

    /// Changes, within update `u`, the attributes of an element that
    /// `change` selects (the `ELEMENT_CHANGE_` bits); the others keep their
    /// values whatever is passed for them (see `changed_attributes`).
    pub fn change_attributes(
        &mut self,
        u: UpdateHandle,
        element: ElementHandle,
        change: u32,
        layer: i32,
        opacity: u8,
        dest_rect: Rect,
        src_rect: Rect,
        mask: ResourceHandle,
        transform: Transform,
    ) -> (r: Result<(), Failure>)
        requires
            old(self).wf(),
        ensures
            final(self).wf(),
            match old(self).change_attributes_check(u, element, change, mask, transform) {
                Some(e) => r == Err::<(), Failure>(e) && *final(self) == *old(self),
                None => {
                    &&& r is Ok
                    &&& final(self).scene() == old(self).scene()
                    &&& final(self).with_op(
                        *old(self),
                        u.0 - 1,
                        Op::Attributes {
                            element: (element.0 - 1) as usize,
                            change,
                            layer,
                            opacity,
                            mask,
                            dest_rect,
                            src_rect,
                            transform,
                        },
                    )
                },
            },
    {
        let (i, e) = self.check_element(u, element)?;
        if change & ELEMENT_CHANGE_MASK_RESOURCE != 0 && !(mask.0 == 0 || self.is_live_resource(
            mask,
        )) {
            return Err(Failure::InvalidHandle);
        }
        if change & ELEMENT_CHANGE_TRANSFORM != 0 && !transform.is_placement() {
            return Err(Failure::HardwareRejected);
        }
        self.push_op(
            i,
            Op::Attributes {
                element: e,
                change,
                layer,
                opacity,
                mask,
                dest_rect,
                src_rect,
                transform,
            },
        );
        Ok(())
    }

    pub open spec fn display_op_check(self, u: UpdateHandle, display: DisplayHandle) -> Option<
        Failure,
    > {
        if self.update_check(u) is Some {
            self.update_check(u)
        } else if !self.open_display(display) {
            Some(Failure::InvalidHandle)
        } else {
            None
        }
    }

    /// Sets, within update `u`, the colour shown where no element covers
    /// the display.
    pub fn set_background(
        &mut self,
        u: UpdateHandle,
        display: DisplayHandle,
        red: u8,
        green: u8,
        blue: u8,
    ) -> (r: Result<(), Failure>)
        requires
            old(self).wf(),
        ensures
            final(self).wf(),
            match old(self).display_op_check(u, display) {
                Some(e) => r == Err::<(), Failure>(e) && *final(self) == *old(self),
                None => {
                    &&& r is Ok
                    &&& final(self).scene() == old(self).scene()
                    &&& final(self).with_op(
                        *old(self),
                        u.0 - 1,
                        Op::Background { display: (display.0 - 1) as usize, red, green, blue },
                    )
                },
            },
    {
        let i = self.check_update(u)?;
        if !self.is_open_display(display) {
            return Err(Failure::InvalidHandle);
        }
        self.push_op(i, Op::Background { display: (display.0 - 1) as usize, red, green, blue });
        Ok(())
    }

    pub open spec fn set_destination_check(
        self,
        u: UpdateHandle,
        display: DisplayHandle,
        resource: ResourceHandle,
    ) -> Option<Failure> {
        if self.display_op_check(u, display) is Some {
            self.display_op_check(u, display)
        } else if !self.live_resource(resource) {
            Some(Failure::InvalidHandle)
        } else {
            None
        }
    }

    /// Points, within update `u`, the composition of a display at resource
    /// `resource`, which it is then written into.
    pub fn set_destination(&mut self, u: UpdateHandle, display: DisplayHandle, resource: ResourceHandle) -> (r:
        Result<(), Failure>)
        requires
            old(self).wf(),
        ensures
            final(self).wf(),
            match old(self).set_destination_check(u, display, resource) {
                Some(e) => r == Err::<(), Failure>(e) && *final(self) == *old(self),
                None => {
                    &&& r is Ok
                    &&& final(self).scene() == old(self).scene()
                    &&& final(self).with_op(
                        *old(self),
                        u.0 - 1,
                        Op::Destination { display: (display.0 - 1) as usize, resource },
                    )
                },
            },
    {
        let i = self.check_update(u)?;
        if !self.is_open_display(display) || !self.is_live_resource(resource) {
            return Err(Failure::InvalidHandle);
        }
        self.push_op(i, Op::Destination { display: (display.0 - 1) as usize, resource });
        Ok(())
    }

    /// Registers, or with `None` withdraws, the callback token of an open
    /// display; it is due at every refresh until replaced or the display is
    /// closed. This is no change of an update: it holds at once.
    pub fn set_vsync_callback(&mut self, d: DisplayHandle, token: Option<u64>) -> (r: Result<
        (),
        Failure,
    >)
        requires
            old(self).wf(),
        ensures
            final(self).wf(),
            if !old(self).open_display(d) {
                r == Err::<(), Failure>(Failure::InvalidHandle) && *final(self) == *old(self)
            } else {
                let i = d.0 - 1;
                &&& r is Ok
                &&& final(self).scene().displays == old(self).scene().displays.update(
                    i,
                    DisplaySlot { vsync_callback: token, ..old(self).scene().displays[i] },
                )
                &&& final(self).scene().elements == old(self).scene().elements
                &&& final(self).updates() == old(self).updates()
                &&& final(self).queued() == old(self).queued()
                &&& forall|j: int|
                    0 <= j < old(self).updates().len() ==> final(self).batch(j) == old(
                        self,
                    ).batch(j)
                &&& final(self).same_tables(*old(self))
            },
    {
        if !self.is_open_display(d) {
            return Err(Failure::InvalidHandle);
        }
        let i = (d.0 - 1) as usize;
        let ghost before = *self;
        let slot = self.displays[i];
        self.displays.set(i, DisplaySlot { vsync_callback: token, ..slot });
        proof {
            assert forall|j: int| 0 <= j < self.displays.len() implies (
            #[trigger] self.displays@[j]).destination.0 <= self.resources.len() by {
                assert(before.scene().displays[j] == before.displays@[j]);
            }
            self.lemma_wf_display_change(before);
        }
        Ok(())
    }

    /// Callbacks due at a refresh: each open display with a registered
    /// token, in the order the displays were opened.
    pub fn vsync_callbacks(&self) -> (r: Vec<(DisplayHandle, u64)>)
        requires
            self.wf(),
        ensures
            r@ == callbacks_due(self.scene().displays, self.scene().displays.len() as int),
    {
        let mut r: Vec<(DisplayHandle, u64)> = Vec::new();
        let mut i: usize = 0;
        while i < self.displays.len()
            invariant
                self.wf(),
                i <= self.displays.len(),
                r@ == callbacks_due(self.scene().displays, i as int),
            decreases self.displays.len() - i,
        {
            let d = self.displays[i];
            if d.open {
                if let Some(t) = d.vsync_callback {
                    r.push((DisplayHandle((i + 1) as u32), t));
                }
            }
            i = i + 1;
        }
        r
    }

    /// Whether a one-element window on output `device` can be made: the
    /// output exists, the tables have room, the mask is none or exists and
    /// the transform places an element.
    pub open spec fn window_ok(self, device: u32, mask: ResourceHandle, transform: Transform) -> bool {
        &&& self.open_check(device) is None
        &&& self.updates().len() < TABLE_CAPACITY
        &&& self.optional_resource(mask)
        &&& transform.spec_is_placement()
        &&& self.scene().elements.len() < TABLE_CAPACITY
    }

    /// Tests `window_ok`.
    pub fn accepts_window(&self, device: u32, mask: ResourceHandle, transform: Transform) -> (b:
        bool)
        ensures
            b == self.window_ok(device, mask, transform),
    {
        (device as usize) < self.outputs.len() && self.displays.len() < TABLE_CAPACITY
            && self.updates.len() < TABLE_CAPACITY && (mask.0 == 0 || self.is_live_resource(mask))
            && transform.is_placement() && self.elements.len() < TABLE_CAPACITY
    }

    /// Re-establishes well-formedness after a display is pushed or changed.
    proof fn lemma_wf_display_change(self, before: Compositor)
        requires
            before.wf(),
            self.max_dimension == before.max_dimension,
            self.outputs == before.outputs,
            self.resources == before.resources,
            self.pixels == before.pixels,
            self.palettes == before.palettes,
            self.elements == before.elements,
            self.updates == before.updates,
            self.batches == before.batches,
            self.queue == before.queue,
            self.displays.len() <= TABLE_CAPACITY,
            self.displays.len() >= before.displays.len(),
            outputs_sized(self.scene(), self.outputs@),
            forall|j: int|
                0 <= j < self.displays.len() ==> (#[trigger] self.displays@[j]).destination.0
                    <= self.resources.len(),
        ensures
            self.wf(),
    {
        assert(refs_bounded(self.scene(), self.resources.len() as int)) by {
            assert forall|j: int| 0 <= j < self.elements.len() implies (
            #[trigger] self.scene().elements[j]).source.0 <= self.resources.len()
                && self.scene().elements[j].alpha.mask.0 <= self.resources.len() by {
                assert(before.scene().elements[j] == self.scene().elements[j]);
            }
        }
        assert forall|u: int, k: int|
            0 <= u < self.batches.len() && 0 <= k < self.batches@[u].len() implies op_in_scene(
            #[trigger] self.batches@[u]@[k],
            self.elements.len() as int,
            self.displays.len() as int,
        ) by {
            assert(op_in_scene(
                before.batches@[u]@[k],
                before.elements.len() as int,
                before.displays.len() as int,
            ));
        }
    }

    pub open spec fn open_check(self, device: u32) -> Option<Failure> {
        if device >= self.outputs().len() || self.scene().displays.len() >= TABLE_CAPACITY {
            Some(Failure::HardwareRejected)
        } else {
            None
        }
    }

    /// Opens physical output `device` as a new display, of the output's size.
    /// Fails where there is no such output or the table is full. Each display
    /// has a composition of its own: two displays opened on one output do not
    /// share a stacking order, and `composition` orders the elements of one
    /// display only.
    pub fn open(&mut self, device: u32) -> (r: Result<DisplayHandle, Failure>)
        requires
            old(self).wf(),
        ensures
            final(self).wf(),
            match old(self).open_check(device) {
                Some(e) => r == Err::<DisplayHandle, Failure>(e) && *final(self) == *old(self),
                None => {
                    let d = old(self).scene().displays.len();
                    let size = old(self).outputs()[device as int];
                    &&& r == Ok::<DisplayHandle, Failure>(DisplayHandle((d + 1) as u32))
                    &&& final(self).scene().displays == old(self).scene().displays.push(
                        DisplaySlot {
                            open: true,
                            device,
                            width: size.width,
                            height: size.height,
                            destination: ResourceHandle(0),
                            orientation: Transform::NoRotate,
                            input_format: VCOSInputFormat::Rgb888,
                            background_red: 0,
                            background_green: 0,
                            background_blue: 0,
                            vsync_callback: None,
                        },
                    )
                    &&& final(self).scene().elements == old(self).scene().elements
                    &&& final(self).updates() == old(self).updates()
                    &&& final(self).queued() == old(self).queued()
                    &&& forall|j: int|
                        0 <= j < old(self).updates().len() ==> final(self).batch(j) == old(
                            self,
                        ).batch(j)
                    &&& final(self).same_tables(*old(self))
                },
            },
    {
        if device as usize >= self.outputs.len() || self.displays.len() >= TABLE_CAPACITY {
            return Err(Failure::HardwareRejected);
        }
        let size = self.outputs[device as usize];
        let d = self.displays.len();
        let ghost before = *self;
        self.displays.push(
            DisplaySlot {
                open: true,
                device,
                width: size.width,
                height: size.height,
                destination: ResourceHandle(0),
                orientation: Transform::NoRotate,
                input_format: VCOSInputFormat::Rgb888,
                background_red: 0,
                background_green: 0,
                background_blue: 0,
                vsync_callback: None,
            },
        );
        proof {
            assert forall|j: int| 0 <= j < self.displays.len() implies (
            #[trigger] self.displays@[j]).destination.0 <= self.resources.len() by {
                if j < d {
                    assert(self.displays@[j] == before.displays@[j]);
                    assert(before.scene().displays[j] == before.displays@[j]);
                }
            }
            self.lemma_wf_display_change(before);
        }
        Ok(DisplayHandle((d + 1) as u32))
    }

    pub open spec fn open_offscreen_check(self, destination: ResourceHandle, orientation: Transform)
        -> Option<Failure> {
        if !self.live_resource(destination) {
            Some(Failure::InvalidHandle)
        } else if !orientation.spec_is_placement() || self.scene().displays.len()
            >= TABLE_CAPACITY {
            Some(Failure::HardwareRejected)
        } else {
            None
        }
    }

    /// Opens a display whose composition is written into resource
    /// `destination`, turned by `orientation`; it has the resource's size.
    pub fn open_offscreen(&mut self, destination: ResourceHandle, orientation: Transform) -> (r:
        Result<DisplayHandle, Failure>)
        requires
            old(self).wf(),
        ensures
            final(self).wf(),
            match old(self).open_offscreen_check(destination, orientation) {
                Some(e) => r == Err::<DisplayHandle, Failure>(e) && *final(self) == *old(self),
                None => {
                    let d = old(self).scene().displays.len();
                    let info = old(self).resources()[destination.0 - 1];
                    &&& r == Ok::<DisplayHandle, Failure>(DisplayHandle((d + 1) as u32))
                    &&& final(self).scene().displays == old(self).scene().displays.push(
                        DisplaySlot {
                            open: true,
                            device: 0,
                            width: info.width,
                            height: info.height,
                            destination,
                            orientation,
                            input_format: input_format_of(info.format),
                            background_red: 0,
                            background_green: 0,
                            background_blue: 0,
                            vsync_callback: None,
                        },
                    )
                    &&& final(self).scene().elements == old(self).scene().elements
                    &&& final(self).updates() == old(self).updates()
                    &&& final(self).queued() == old(self).queued()
                    &&& forall|j: int|
                        0 <= j < old(self).updates().len() ==> final(self).batch(j) == old(
                            self,
                        ).batch(j)
                    &&& final(self).same_tables(*old(self))
                },
            },
    {
        if !self.is_live_resource(destination) {
            return Err(Failure::InvalidHandle);
        }
        if !orientation.is_placement() || self.displays.len() >= TABLE_CAPACITY {
            return Err(Failure::HardwareRejected);
        }
        let info = self.resources[(destination.0 - 1) as usize];
        let input_format = input_format_for(info.format);
        let d = self.displays.len();
        let ghost before = *self;
        self.displays.push(
            DisplaySlot {
                open: true,
                device: 0,
                width: info.width,
                height: info.height,
                destination,
                orientation,
                input_format,
                background_red: 0,
                background_green: 0,
                background_blue: 0,
                vsync_callback: None,
            },
        );
        proof {
            assert forall|j: int| 0 <= j < self.displays.len() implies (
            #[trigger] self.displays@[j]).destination.0 <= self.resources.len() by {
                if j < d {
                    assert(self.displays@[j] == before.displays@[j]);
                    assert(before.scene().displays[j] == before.displays@[j]);
                }
            }
            self.lemma_wf_display_change(before);
        }
        Ok(DisplayHandle((d + 1) as u32))
    }

    pub open spec fn close_check(self, d: DisplayHandle) -> Option<Failure> {
        if !self.open_display(d) {
            Some(Failure::InvalidHandle)
        } else {
            None
        }
    }

    /// Closes a display; its handle is spent, and no update can change it or
    /// add an element to it. Its elements stay until removed, and go on
    /// holding their resources.
    pub fn close(&mut self, d: DisplayHandle) -> (r: Result<(), Failure>)
        requires
            old(self).wf(),
        ensures
            final(self).wf(),
            match old(self).close_check(d) {
                Some(e) => r == Err::<(), Failure>(e) && *final(self) == *old(self),
                None => {
                    let i = d.0 - 1;
                    &&& r is Ok
                    &&& final(self).scene().displays == old(self).scene().displays.update(
                        i,
                        DisplaySlot { open: false, ..old(self).scene().displays[i] },
                    )
                    &&& final(self).scene().elements == old(self).scene().elements
                    &&& final(self).updates() == old(self).updates()
                    &&& final(self).queued() == old(self).queued()
                    &&& forall|j: int|
                        0 <= j < old(self).updates().len() ==> final(self).batch(j) == old(
                            self,
                        ).batch(j)
                    &&& final(self).same_tables(*old(self))
                },
            },
    {
        if !self.is_open_display(d) {
            return Err(Failure::InvalidHandle);
        }
        let i = (d.0 - 1) as usize;
        let ghost before = *self;
        let slot = self.displays[i];
        self.displays.set(i, DisplaySlot { open: false, ..slot });
        proof {
            assert forall|j: int| 0 <= j < self.displays.len() implies (
            #[trigger] self.displays@[j]).destination.0 <= self.resources.len() by {
                assert(before.scene().displays[j] == before.displays@[j]);
            }
            self.lemma_wf_display_change(before);
        }
        Ok(())
    }

    pub open spec fn spec_info(self, d: DisplayHandle) -> ModeInfo {
        let slot = self.scene().displays[d.0 - 1];
        ModeInfo {
            width: slot.width,
            height: slot.height,
            transform: slot.orientation,
            input_format: slot.input_format,
            display_num: slot.device,
        }
    }

    /// The committed size, orientation and pixel format of an open display;
    /// no update is needed to ask. A display that composites to an output
    /// has that output's size, as `graphics_get_display_size` gives it.
    pub fn get_info(&self, d: DisplayHandle) -> (r: Result<ModeInfo, Failure>)
        requires
            self.wf(),
        ensures
            r == if self.open_display(d) {
                Ok::<ModeInfo, Failure>(self.spec_info(d))
            } else {
                Err::<ModeInfo, Failure>(Failure::InvalidHandle)
            },
            r is Ok && self.scene().displays[d.0 - 1].destination.0 == 0 ==> {
                let info = r.unwrap();
                &&& info.display_num < self.outputs().len()
                &&& info.width == self.outputs()[info.display_num as int].width
                &&& info.height == self.outputs()[info.display_num as int].height
            },
    {
        if !self.is_open_display(d) {
            return Err(Failure::InvalidHandle);
        }
        let slot = self.displays[(d.0 - 1) as usize];
        Ok(
            ModeInfo {
                width: slot.width,
                height: slot.height,
                transform: slot.orientation,
                input_format: slot.input_format,
                display_num: slot.device,
            },
        )
    }

    /// The elements of an open display's composition, from the bottom up:
    /// by layer, and on one layer in the order they were added.
    #[verifier::spinoff_prover]
    #[verifier::rlimit(40)]
    pub fn composition(&self, d: DisplayHandle) -> (r: Result<Vec<ElementHandle>, Failure>)
        requires
            self.wf(),
        ensures
            match r {
                Ok(order) => self.open_display(d) && is_composition(self.scene(), d, order@),
                Err(e) => !self.open_display(d) && e == Failure::InvalidHandle,
            },
    {
        if !self.is_open_display(d) {
            return Err(Failure::InvalidHandle);
        }
        let ghost s = self.scene();
        let mut out: Vec<ElementHandle> = Vec::new();
        let mut i: usize = 0;
        while i < self.elements.len()
            invariant
                self.wf(),
                s == self.scene(),
                i <= self.elements.len(),
                forall|k: int|
                    0 <= k < out.len() ==> on_display(s, d, (#[trigger] out@[k]).0 - 1)
                        && out@[k].0 <= i,
                forall|j: int|
                    0 <= j < i && on_display(s, d, j) ==> out@.contains(
                        ElementHandle((j + 1) as u32),
                    ),
                forall|a: int, b: int|
                    0 <= a < b < out.len() ==> below(s, #[trigger] out@[a], #[trigger] out@[b]),
            decreases self.elements.len() - i,
        {
            let e = self.elements[i];
            if e.state == ElementState::Live && e.display == d {
                let mut p: usize = 0;
                while p < out.len() && self.elements[(out[p].0 - 1) as usize].layer <= e.layer
                    invariant
                        self.wf(),
                        s == self.scene(),
                        i < self.elements.len(),
                        e == s.elements[i as int],
                        p <= out.len(),
                        forall|k: int|
                            0 <= k < out.len() ==> on_display(s, d, (#[trigger] out@[k]).0 - 1)
                                && out@[k].0 <= i,
                        forall|q: int| 0 <= q < p ==> s.elements[(#[trigger] out@[q]).0 - 1].layer <= e.layer,
                    decreases out.len() - p,
                {
                    p = p + 1;
                }
                let h = ElementHandle((i + 1) as u32);
                let ghost before = out@;
                out.insert(p, h);
                proof {
                    assert(out@ == before.insert(p as int, h));
                    assert forall|k: int| 0 <= k < out.len() implies on_display(
                        s,
                        d,
                        (#[trigger] out@[k]).0 - 1,
                    ) && out@[k].0 <= i + 1 by {
                        if k < p {
                            assert(out@[k] == before[k]);
                        } else if k > p {
                            assert(out@[k] == before[k - 1]);
                        }
                    }
                    assert forall|j: int|
                        0 <= j < i + 1 && on_display(s, d, j) implies out@.contains(
                        ElementHandle((j + 1) as u32),
                    ) by {
                        if j == i {
                            assert(out@[p as int] == h);
                        } else {
                            let k = choose|k: int|
                                0 <= k < before.len() && #[trigger] before[k] == ElementHandle(
                                    (j + 1) as u32,
                                );
                            if k < p {
                                assert(out@[k] == before[k]);
                            } else {
                                assert(out@[k + 1] == before[k]);
                            }
                        }
                    }
                    assert forall|a: int, b: int| 0 <= a < b < out.len() implies below(
                        s,
                        #[trigger] out@[a],
                        #[trigger] out@[b],
                    ) by {
                        if b < p {
                            assert(out@[a] == before[a] && out@[b] == before[b]);
                            assert(below(s, before[a], before[b]));
                        } else if a > p {
                            assert(out@[a] == before[a - 1] && out@[b] == before[b - 1]);
                            assert(below(s, before[a - 1], before[b - 1]));
                        } else if a < p && b > p {
                            assert(out@[a] == before[a] && out@[b] == before[b - 1]);
                            assert(below(s, before[a], before[b - 1]));
                        } else if a == p {
                            assert(out@[b] == before[b - 1]);
                            assert(s.elements[before[p as int].0 - 1].layer > e.layer);
                            if b - 1 > p {
                                assert(below(s, before[p as int], before[b - 1]));
                            }
                        } else {
                            assert(out@[a] == before[a]);
                            assert(s.elements[before[a].0 - 1].layer <= e.layer);
                        }
                    }
                }
            }
            i = i + 1;
        }
        Ok(out)
    }

    /// What the compositor records of an element, as applied updates left it.
    pub fn element(&self, e: ElementHandle) -> (r: Option<ElementSlot>)
        ensures
            r == if 1 <= e.0 <= self.scene().elements.len() {
                Some(self.scene().elements[e.0 - 1])
            } else {
                None
            },
    {
        if e.0 == 0 || e.0 as usize > self.elements.len() {
            None
        } else {
            Some(self.elements[(e.0 - 1) as usize])
        }
    }

    /// What the compositor records of a display, as applied updates left it.
    pub fn display(&self, d: DisplayHandle) -> (r: Option<DisplaySlot>)
        ensures
            r == if 1 <= d.0 <= self.scene().displays.len() {
                Some(self.scene().displays[d.0 - 1])
            } else {
                None
            },
    {
        if d.0 == 0 || d.0 as usize > self.displays.len() {
            None
        } else {
            Some(self.displays[(d.0 - 1) as usize])
        }
    }

    /// State of an update.
    pub fn update_state(&self, u: UpdateHandle) -> (r: Option<UpdateState>)
        ensures
            r == if 1 <= u.0 <= self.updates().len() {
                Some(self.updates()[u.0 - 1].state)
            } else {
                None
            },
    {
        if u.0 == 0 || u.0 as usize > self.updates.len() {
            None
        } else {
            Some(self.updates[(u.0 - 1) as usize].state)
        }
    }
}

impl Compositor {
    /// What well-formedness gives of the queue: each queued update is spent
    /// by submission, and names only elements and displays that exist.
    pub proof fn lemma_queue_facts(self)
        requires
            self.wf(),
        ensures
            forall|k: int|
                0 <= k < self.queued().len() ==> 1 <= (#[trigger] self.queued()[k]).0
                    <= self.updates().len() && self.updates()[self.queued()[k].0 - 1].state
                    == UpdateState::Queued,
            forall|b: int, k: int|
                0 <= b < self.queued_batches().len() && 0 <= k < self.queued_batches()[b].len()
                    ==> op_in_scene(
                    #[trigger] self.queued_batches()[b][k],
                    self.scene().elements.len() as int,
                    self.scene().displays.len() as int,
                ),
    {
        assert forall|b: int, k: int|
            0 <= b < self.queued_batches().len() && 0 <= k < self.queued_batches()[b].len()
                implies op_in_scene(
            #[trigger] self.queued_batches()[b][k],
            self.scene().elements.len() as int,
            self.scene().displays.len() as int,
        ) by {
            let u = self.queue@[b].0 - 1;
            assert(self.queued_batches()[b] == self.batches@[u]@);
            assert(op_in_scene(
                self.batches@[u]@[k],
                self.elements.len() as int,
                self.displays.len() as int,
            ));
        }
    }
}

/// A resource just created, which nothing can name yet, can be deleted: a
/// `create` that succeeds, followed by `delete` of the handle it gave,
/// succeeds too.
pub proof fn lemma_create_then_delete(
    before: Compositor,
    after: Compositor,
    format: ImageType,
    width: u32,
    height: u32,
)
    requires
        before.wf(),
        after.wf(),
        before.create_check(format, width, height) is None,
        after.resources() == before.resources().push(
            ResourceInfo { live: true, format, width, height },
        ),
        after.same_but_resources(before),
    ensures
        after.delete_check(ResourceHandle((before.resources().len() + 1) as u32)) is None,
{
    let r = ResourceHandle((before.resources().len() + 1) as u32);
    let n = before.resources().len() as int;
    assert(after.live_resource(r));
    assert(!after.referenced(r)) by {
        let s = after.scene();
        assert forall|i: int|
            0 <= i < s.elements.len() implies !((#[trigger] s.elements[i]).state
            != ElementState::Removed && (s.elements[i].source == r || s.elements[i].alpha.mask
            == r)) by {
            assert(before.scene().elements[i].source.0 <= n);
        }
        assert forall|i: int| 0 <= i < s.displays.len() implies !((
        #[trigger] s.displays[i]).open && s.displays[i].destination == r) by {
            assert(before.scene().displays[i].destination.0 <= n);
        }
        assert forall|u: int, k: int|
            0 <= u < after.updates().len() && after.updates()[u].state != UpdateState::Applied
                && 0 <= k < after.batch(u).len() implies !op_references(
            #[trigger] after.batch(u)[k],
            r,
        ) by {
            assert(op_bounded(before.batches@[u]@[k], n));
        }
    }
}

} // verus!
