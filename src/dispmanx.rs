use vstd::prelude::*;

use crate::compositor::{Compositor, Failure};
use crate::display::VCOSInputFormat;
use crate::scene::{
    apply_batches, apply_op, apply_ops, extend, lemma_batches_extend, DisplaySlot, ElementSlot,
    ElementState, Op, UpdateSlot, UpdateState,
};

verus! {

/// Handle of a compositor target.
#[derive(Clone, Copy, Debug, PartialEq, Eq, Structural)]
pub struct DisplayHandle(pub u32);

/// Handle of a positioned, blended view of a resource on a display.
#[derive(Clone, Copy, Debug, PartialEq, Eq, Structural)]
pub struct ElementHandle(pub u32);

/// Handle of a pixel buffer.
#[derive(Clone, Copy, Debug, PartialEq, Eq, Structural)]
pub struct ResourceHandle(pub u32);

/// Handle of a transaction.
#[derive(Clone, Copy, Debug, PartialEq, Eq, Structural)]
pub struct UpdateHandle(pub u32);

/// Content-protection level of an element; advisory to the hardware.
pub type Protection = u32;

pub const DISPMANX_PROTECTION_NONE: u32 = 0;

pub const DISPMANX_ID_MAIN_LCD: u32 = 0;
pub const DISPMANX_ID_AUX_LCD: u32 = 1;
pub const DISPMANX_ID_HDMI: u32 = 2;
pub const DISPMANX_ID_SDTV: u32 = 3;
pub const DISPMANX_ID_FORCE_LCD: u32 = 4;
pub const DISPMANX_ID_FORCE_TV: u32 = 5;
/// Non-default display.
pub const DISPMANX_ID_FORCE_OTHER: u32 = 6;

/// Blend mode of an element. The bottom two bits of the native code select
/// the mode; `Premult` and `Mix` are modifier bits.
#[derive(Clone, Copy, Debug, PartialEq, Eq, Structural)]
pub enum FlagsAlpha {
    FromSource,
    FixedAllPixels,
    FixedNonZero,
    FixedExceed0x07,
    Premult,
    Mix,
}

impl FlagsAlpha {
    pub open spec fn spec_code(self) -> u32 {
        match self {
            FlagsAlpha::FromSource => 0,
            FlagsAlpha::FixedAllPixels => 1,
            FlagsAlpha::FixedNonZero => 2,
            FlagsAlpha::FixedExceed0x07 => 3,
            FlagsAlpha::Premult => 0x1_0000,
            FlagsAlpha::Mix => 0x2_0000,
        }
    }

    /// The native numeric value.
    pub fn code(&self) -> (r: u32)
        ensures
            r == self.spec_code(),
    {
        match self {
            FlagsAlpha::FromSource => 0,
            FlagsAlpha::FixedAllPixels => 1,
            FlagsAlpha::FixedNonZero => 2,
            FlagsAlpha::FixedExceed0x07 => 3,
            FlagsAlpha::Premult => 0x1_0000,
            FlagsAlpha::Mix => 0x2_0000,
        }
    }

    /// The variant with the given native value, if any.
    pub fn from_code(v: u32) -> (r: Option<FlagsAlpha>)
        ensures
            r matches Some(f) ==> f.spec_code() == v,
            r is None <==> forall|f: FlagsAlpha| f.spec_code() != v,
    {
        let r = if v == 0 {
            Some(FlagsAlpha::FromSource)
        } else if v == 1 {
            Some(FlagsAlpha::FixedAllPixels)
        } else if v == 2 {
            Some(FlagsAlpha::FixedNonZero)
        } else if v == 3 {
            Some(FlagsAlpha::FixedExceed0x07)
        } else if v == 0x1_0000 {
            Some(FlagsAlpha::Premult)
        } else if v == 0x2_0000 {
            Some(FlagsAlpha::Mix)
        } else {
            None
        };
        proof {
            if r is None {
                assert forall|f: FlagsAlpha| f.spec_code() != v by {
                    match f {
                        FlagsAlpha::FromSource => {},
                        FlagsAlpha::FixedAllPixels => {},
                        FlagsAlpha::FixedNonZero => {},
                        FlagsAlpha::FixedExceed0x07 => {},
                        FlagsAlpha::Premult => {},
                        FlagsAlpha::Mix => {},
                    }
                }
            }
        }
        r
    }
}

/// Outcome of a native call.
#[derive(Clone, Copy, Debug, PartialEq, Eq, Structural)]
pub enum Status {
    Success,
    Invalid,
}

impl Status {
    pub open spec fn spec_code(self) -> i32 {
        match self {
            Status::Success => 0i32,
            Status::Invalid => -1i32,
        }
    }

    /// The native numeric value.
    pub fn code(&self) -> (r: i32)
        ensures
            r == self.spec_code(),
    {
        match self {
            Status::Success => 0,
            Status::Invalid => -1,
        }
    }

    /// Reads a native status: zero is success, anything else a failure.
    pub fn from_code(v: i32) -> (r: Status)
        ensures
            r == (if v == 0 { Status::Success } else { Status::Invalid }),
    {
        if v == 0 {
            Status::Success
        } else {
            Status::Invalid
        }
    }
}

/// Geometric transform of an element: a rotation, a flip, or a snapshot
/// modifier.
#[derive(Clone, Copy, Debug, PartialEq, Eq, Structural)]
pub enum Transform {
    NoRotate,
    Rotate90,
    Rotate180,
    Rotate270,
    FlipHriz,
    FlipVert,
    SnapshotNoYuv,
    SnapshotNoRgb,
    SnapshotFill,
    SnapshotSwapRedBlue,
    SnapshotPack,
}

impl Transform {
    pub open spec fn spec_code(self) -> u32 {
        match self {
            Transform::NoRotate => 0,
            Transform::Rotate90 => 1,
            Transform::Rotate180 => 2,
            Transform::Rotate270 => 3,
            Transform::FlipHriz => 0x1_0000,
            Transform::FlipVert => 0x2_0000,
            Transform::SnapshotNoYuv => 0x100_0000,
            Transform::SnapshotNoRgb => 0x200_0000,
            Transform::SnapshotFill => 0x400_0000,
            Transform::SnapshotSwapRedBlue => 0x800_0000,
            Transform::SnapshotPack => 0x1000_0000,
        }
    }

    /// The native numeric value.
    pub fn code(&self) -> (r: u32)
        ensures
            r == self.spec_code(),
    {
        match self {
            Transform::NoRotate => 0,
            Transform::Rotate90 => 1,
            Transform::Rotate180 => 2,
            Transform::Rotate270 => 3,
            Transform::FlipHriz => 0x1_0000,
            Transform::FlipVert => 0x2_0000,
            Transform::SnapshotNoYuv => 0x100_0000,
            Transform::SnapshotNoRgb => 0x200_0000,
            Transform::SnapshotFill => 0x400_0000,
            Transform::SnapshotSwapRedBlue => 0x800_0000,
            Transform::SnapshotPack => 0x1000_0000,
        }
    }

    /// Snapshot modifiers only matter when a display is captured; they are no
    /// placement of an element.
    pub open spec fn spec_is_placement(self) -> bool {
        !(self is SnapshotNoYuv || self is SnapshotNoRgb || self is SnapshotFill
            || self is SnapshotSwapRedBlue || self is SnapshotPack)
    }

    /// Whether the transform is a rotation or a flip, as an element may carry.
    pub fn is_placement(&self) -> (r: bool)
        ensures
            r == self.spec_is_placement(),
    {
        match self {
            Transform::SnapshotNoYuv => false,
            Transform::SnapshotNoRgb => false,
            Transform::SnapshotFill => false,
            Transform::SnapshotSwapRedBlue => false,
            Transform::SnapshotPack => false,
            _ => true,
        }
    }
}

/// An axis-aligned rectangle. On a display it is in whole pixels; within a
/// resource, as a source, in 16.16 fixed point.
#[derive(Clone, Copy, Debug, PartialEq, Eq, Structural)]
pub struct Rect {
    pub x: i32,
    pub y: i32,
    pub width: i32,
    pub height: i32,
}

/// Blend descriptor of an element: mode, opacity and an optional per-pixel
/// alpha mask (a resource handle; zero for none).
#[derive(Clone, Copy, Debug, PartialEq, Eq, Structural)]
pub struct VCAlpha {
    pub flags: FlagsAlpha,
    pub opacity: u32,
    pub mask: ResourceHandle,
}

/// What a one-element display gives back: the element and its size.
#[derive(Clone, Copy, Debug, PartialEq, Eq, Structural)]
pub struct Window {
    pub element: ElementHandle,
    pub width: i32,
    pub height: i32,
}

/// How a colour key makes pixels of an element transparent.
#[derive(Clone, Copy, Debug, PartialEq, Eq, Structural)]
pub enum FlagsClamp {
    NoClamp,
    LumaTransparent,
    Transparent,
    Replace,
}

impl FlagsClamp {
    pub open spec fn spec_code(self) -> u32 {
        match self {
            FlagsClamp::NoClamp => 0,
            FlagsClamp::LumaTransparent => 1,
            FlagsClamp::Transparent => 2,
            FlagsClamp::Replace => 3,
        }
    }

    /// The native numeric value.
    pub fn code(&self) -> (r: u32)
        ensures
            r == self.spec_code(),
    {
        match self {
            FlagsClamp::NoClamp => 0,
            FlagsClamp::LumaTransparent => 1,
            FlagsClamp::Transparent => 2,
            FlagsClamp::Replace => 3,
        }
    }
}

/// Bits of a colour key's mask.
pub const DISPMANX_KEYMASK_OVERRIDE: u32 = 1;
pub const DISPMANX_KEYMASK_SMOOTH: u32 = 2;
pub const DISPMANX_KEYMASK_CR_INV: u32 = 4;
pub const DISPMANX_KEYMASK_CB_INV: u32 = 8;
pub const DISPMANX_KEYMASK_YY_INV: u32 = 16;

/// Colour-key descriptor of an element: the clamp mode, the key mask bits and
/// the value that replaces keyed pixels.
#[derive(Clone, Copy, Debug, PartialEq, Eq, Structural)]
pub struct Clamp {
    pub mode: FlagsClamp,
    pub key_mask: u32,
    pub replace_value: u32,
}

/// Opens physical output `device` as a new display, and in one update of
/// priority zero adds an element on layer zero, without a resource, clamp or
/// protection, that spans the given rectangles; waits until the update is
/// applied. Updates queued before are applied first, as `submit_sync` does.
/// Where the window cannot be made nothing changes.
pub fn create_window(
    c: &mut Compositor,
    device: u32,
    dest_rect: Rect,
    src_rect: Rect,
    alpha: VCAlpha,
    transform: Transform,
) -> (r: Result<Window, Failure>)
    requires
        old(c).wf(),
    ensures
        final(c).wf(),
        r is Ok <==> old(c).window_ok(device, alpha.mask, transform),
        r is Err ==> r == Err::<Window, Failure>(Failure::HardwareRejected) && *final(c) == *old(c),
        r matches Ok(w) ==> {
            let e = old(c).scene().elements.len();
            let n = old(c).updates().len();
            let d = DisplayHandle((old(c).scene().displays.len() + 1) as u32);
            let size = old(c).outputs()[device as int];
            let element = ElementSlot {
                display: d,
                layer: 0,
                dest_rect,
                source: ResourceHandle(0),
                src_rect,
                protection: DISPMANX_PROTECTION_NONE,
                alpha,
                clamp: None,
                transform,
                state: ElementState::Live,
            };
            let display = DisplaySlot {
                open: true,
                device,
                width: size.width,
                height: size.height,
                destination: ResourceHandle(0),
                orientation: Transform::NoRotate,
                input_format: VCOSInputFormat::Rgb888,
                background_red: 0,
                background_green: 0,
                background_blue: 0,
                vsync_callback: None,
            };
            &&& w == Window {
                element: ElementHandle((e + 1) as u32),
                width: dest_rect.width,
                height: dest_rect.height,
            }
            &&& final(c).scene() == extend(
                apply_batches(old(c).scene(), old(c).queued_batches()),
                element,
                display,
            )
            &&& final(c).queued().len() == 0
            &&& final(c).updates().len() == n + 1
            &&& forall|v: int|
                0 <= v < n ==> #[trigger] final(c).updates()[v] == old(c).flushed_slot(v)
            &&& final(c).updates()[n as int] == UpdateSlot { state: UpdateState::Applied, priority: 0 }
            &&& forall|j: int| 0 <= j < n ==> final(c).batch(j) == old(c).batch(j)
            &&& final(c).batch(n as int) == seq![Op::Add { element: e as usize }]
            &&& final(c).same_tables(*old(c))
        },
{
    if !c.accepts_window(device, alpha.mask, transform) {
        return Err(Failure::HardwareRejected);
    }
    let ghost c0 = *c;
    let display = match c.open(device) {
        Ok(d) => d,
        Err(f) => {
            return Err(f);
        },
    };
    let ghost c1 = *c;
    let update = match c.start(0) {
        Ok(u) => u,
        Err(f) => {
            return Err(f);
        },
    };
    let ghost c2 = *c;
    proof {
        assert(c2.optional_resource(alpha.mask));
    }
    let element = match c.add(
        update,
        display,
        0,
        dest_rect,
        ResourceHandle(0),
        src_rect,
        DISPMANX_PROTECTION_NONE,
        alpha,
        None,
        transform,
    ) {
        Ok(e) => e,
        Err(f) => {
            return Err(f);
        },
    };
    let ghost c3 = *c;
    let ghost e = c0.scene().elements.len() as int;
    let ghost i = (update.0 - 1) as int;
    proof {
        c0.lemma_queue_facts();
        assert(c3.queued_batches() =~= c0.queued_batches()) by {
            assert forall|k: int| 0 <= k < c0.queued().len() implies c3.queued_batches()[k]
                == c0.queued_batches()[k] by {
                assert(c0.queued()[k].0 - 1 != i);
            }
        }
        assert(c3.batch(i) =~= seq![Op::Add { element: e as usize }]);
        assert(c3.update_check(update) is None);
    }
    match c.submit_sync(update) {
        Ok(()) => {},
        Err(f) => {
            return Err(f);
        },
    }
    proof {
        let s0 = c0.scene();
        let qb = c0.queued_batches();
        let pending = c3.scene().elements[e];
        let dslot = c3.scene().displays[(display.0 - 1) as int];
        assert(c3.scene().elements =~= s0.elements.push(pending));
        assert(c3.scene().displays =~= s0.displays.push(dslot));
        assert(c3.scene() == extend(s0, pending, dslot));
        lemma_batches_extend(s0, qb, pending, dslot);
        let t = apply_batches(s0, qb);
        let ops = seq![Op::Add { element: e as usize }];
        let x = extend(t, pending, dslot);
        assert(ops.drop_last() =~= Seq::<Op>::empty());
        assert(apply_ops(x, Seq::<Op>::empty()) == x);
        assert(ops.last() == ops[0]);
        let y = apply_op(x, ops[0]);
        assert(y.elements =~= t.elements.push(ElementSlot { state: ElementState::Live, ..pending }));
        assert(y.displays =~= t.displays.push(dslot));
        assert forall|j: int| 0 <= j < c0.resources().len() implies c.content(j) == c0.content(j)
            && c.palette(j) == c0.palette(j) by {}
    }
    Ok(Window { element, width: dest_rect.width, height: dest_rect.height })
}

} // verus!
