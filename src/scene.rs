//! The part of the compositor that updates change, as values: the records of
//! elements and displays, the changes an update carries, and what applying
//! them does.

use vstd::prelude::*;

use crate::bcm_host::GraphicsDisplaySize;
use crate::display::InputFormat;
use crate::dispmanx::{
    Clamp, DisplayHandle, ElementHandle, Protection, Rect, ResourceHandle, Transform, VCAlpha,
};

verus! {

/// Stage of an element in its life.
#[derive(Clone, Copy, Debug, PartialEq, Eq, Structural)]
pub enum ElementState {
    /// Added by an update that has not been applied yet.
    Pending,
    /// Part of its display's composition.
    Live,
    /// Removed by an applied update.
    Removed,
}

/// What the compositor records of an element.
#[derive(Clone, Copy, Debug, PartialEq, Eq, Structural)]
pub struct ElementSlot {
    pub display: DisplayHandle,
    pub layer: i32,
    pub dest_rect: Rect,
    pub source: ResourceHandle,
    pub src_rect: Rect,
    pub protection: Protection,
    pub alpha: VCAlpha,
    pub clamp: Option<Clamp>,
    pub transform: Transform,
    pub state: ElementState,
}

/// What the compositor records of a display.
#[derive(Clone, Copy, Debug, PartialEq, Eq, Structural)]
pub struct DisplaySlot {
    pub open: bool,
    pub device: u32,
    pub width: u32,
    pub height: u32,
    /// The resource an off-screen display composites into; zero for an output.
    pub destination: ResourceHandle,
    pub orientation: Transform,
    pub input_format: InputFormat,
    pub background_red: u8,
    pub background_green: u8,
    pub background_blue: u8,
    /// Token of the callback to run at each refresh of this display, if any.
    pub vsync_callback: Option<u64>,
}

/// Committed state of a display as `get_info` reports it.
#[derive(Clone, Copy, Debug, PartialEq, Eq, Structural)]
pub struct ModeInfo {
    pub width: u32,
    pub height: u32,
    pub transform: Transform,
    pub input_format: InputFormat,
    pub display_num: u32,
}

/// Stage of an update in its life.
#[derive(Clone, Copy, Debug, PartialEq, Eq, Structural)]
pub enum UpdateState {
    /// Accepting changes.
    Open,
    /// Submitted without waiting; applied at the next refresh.
    Queued,
    /// Applied; the handle is spent.
    Applied,
}

#[derive(Clone, Copy, Debug, PartialEq, Eq, Structural)]
pub struct UpdateSlot {
    pub state: UpdateState,
    pub priority: i32,
}

/// Selectors of `change_attributes`: which of the given fields apply.
pub const ELEMENT_CHANGE_LAYER: u32 = 1;

pub const ELEMENT_CHANGE_OPACITY: u32 = 2;

pub const ELEMENT_CHANGE_DEST_RECT: u32 = 4;

pub const ELEMENT_CHANGE_SRC_RECT: u32 = 8;

pub const ELEMENT_CHANGE_MASK_RESOURCE: u32 = 16;

pub const ELEMENT_CHANGE_TRANSFORM: u32 = 32;

/// A change that an update carries; element and display are table indices.
#[derive(Clone, Copy, Debug, PartialEq, Eq, Structural)]
pub enum Op {
    Add { element: usize },
    Remove { element: usize },
    Layer { element: usize, layer: i32 },
    Source { element: usize, source: ResourceHandle },
    Attributes {
        element: usize,
        change: u32,
        layer: i32,
        opacity: u8,
        mask: ResourceHandle,
        dest_rect: Rect,
        src_rect: Rect,
        transform: Transform,
    },
    Modified { element: usize, rect: Rect },
    Background { display: usize, red: u8, green: u8, blue: u8 },
    Destination { display: usize, resource: ResourceHandle },
}

/// The part of the compositor's state that updates change.
pub struct Scene {
    pub elements: Seq<ElementSlot>,
    pub displays: Seq<DisplaySlot>,
}

pub open spec fn selects(change: u32, field: u32) -> bool {
    change & field != 0
}

pub open spec fn with_element(s: Scene, i: int, e: ElementSlot) -> Scene {
    if 0 <= i < s.elements.len() {
        Scene { elements: s.elements.update(i, e), displays: s.displays }
    } else {
        s
    }
}

pub open spec fn with_display(s: Scene, i: int, d: DisplaySlot) -> Scene {
    if 0 <= i < s.displays.len() {
        Scene { elements: s.elements, displays: s.displays.update(i, d) }
    } else {
        s
    }
}

/// An element after `change_attributes` with the given selectors and values:
/// each field that `change` does not select keeps its value.
pub open spec fn changed_attributes(
    e: ElementSlot,
    change: u32,
    layer: i32,
    opacity: u8,
    mask: ResourceHandle,
    dest_rect: Rect,
    src_rect: Rect,
    transform: Transform,
) -> ElementSlot {
    ElementSlot {
        layer: if selects(change, ELEMENT_CHANGE_LAYER) {
            layer
        } else {
            e.layer
        },
        dest_rect: if selects(change, ELEMENT_CHANGE_DEST_RECT) {
            dest_rect
        } else {
            e.dest_rect
        },
        src_rect: if selects(change, ELEMENT_CHANGE_SRC_RECT) {
            src_rect
        } else {
            e.src_rect
        },
        alpha: VCAlpha {
            flags: e.alpha.flags,
            opacity: if selects(change, ELEMENT_CHANGE_OPACITY) {
                opacity as u32
            } else {
                e.alpha.opacity
            },
            mask: if selects(change, ELEMENT_CHANGE_MASK_RESOURCE) {
                mask
            } else {
                e.alpha.mask
            },
        },
        transform: if selects(change, ELEMENT_CHANGE_TRANSFORM) {
            transform
        } else {
            e.transform
        },
        ..e
    }
}

/// The effect of one change when its update is applied.
pub open spec fn apply_op(s: Scene, op: Op) -> Scene {
    match op {
        Op::Add { element } => with_element(
            s,
            element as int,
            ElementSlot { state: ElementState::Live, ..s.elements[element as int] },
        ),
        Op::Remove { element } => with_element(
            s,
            element as int,
            ElementSlot { state: ElementState::Removed, ..s.elements[element as int] },
        ),
        Op::Layer { element, layer } => with_element(
            s,
            element as int,
            ElementSlot { layer, ..s.elements[element as int] },
        ),
        Op::Source { element, source } => with_element(
            s,
            element as int,
            ElementSlot { source, ..s.elements[element as int] },
        ),
        Op::Attributes { element, change, layer, opacity, mask, dest_rect, src_rect, transform } =>
            with_element(
            s,
            element as int,
            changed_attributes(
                s.elements[element as int],
                change,
                layer,
                opacity,
                mask,
                dest_rect,
                src_rect,
                transform,
            ),
        ),
        Op::Modified { .. } => s,
        Op::Background { display, red, green, blue } => with_display(
            s,
            display as int,
            DisplaySlot {
                background_red: red,
                background_green: green,
                background_blue: blue,
                ..s.displays[display as int]
            },
        ),
        Op::Destination { display, resource } => with_display(
            s,
            display as int,
            DisplaySlot { destination: resource, ..s.displays[display as int] },
        ),
    }
}

/// The effect of a whole update: its changes in the order they were issued.
pub open spec fn apply_ops(s: Scene, ops: Seq<Op>) -> Scene
    decreases ops.len(),
{
    if ops.len() == 0 {
        s
    } else {
        apply_op(apply_ops(s, ops.drop_last()), ops.last())
    }
}

/// The effect of several updates, applied in the order given.
pub open spec fn apply_batches(s: Scene, batches: Seq<Seq<Op>>) -> Scene
    decreases batches.len(),
{
    if batches.len() == 0 {
        s
    } else {
        apply_ops(apply_batches(s, batches.drop_last()), batches.last())
    }
}

/// Whether a change names resource `r` as a new source, mask or destination.
pub open spec fn op_references(op: Op, r: ResourceHandle) -> bool {
    match op {
        Op::Source { source, .. } => source == r,
        Op::Attributes { change, mask, .. } => selects(change, ELEMENT_CHANGE_MASK_RESOURCE)
            && mask == r,
        Op::Destination { resource, .. } => resource == r,
        _ => false,
    }
}

/// Whether every resource that a change names lies within the first `n`.
pub open spec fn op_bounded(op: Op, n: int) -> bool {
    match op {
        Op::Source { source, .. } => source.0 <= n,
        Op::Attributes { change, mask, .. } => selects(change, ELEMENT_CHANGE_MASK_RESOURCE)
            ==> mask.0 <= n,
        Op::Destination { resource, .. } => 1 <= resource.0 <= n,
        _ => true,
    }
}

/// Whether a change names an element among the first `ne`, or a display
/// among the first `nd`.
pub open spec fn op_in_scene(op: Op, ne: int, nd: int) -> bool {
    match op {
        Op::Add { element } => element < ne,
        Op::Remove { element } => element < ne,
        Op::Layer { element, .. } => element < ne,
        Op::Source { element, .. } => element < ne,
        Op::Attributes { element, .. } => element < ne,
        Op::Modified { element, .. } => element < ne,
        Op::Background { display, .. } => display < nd,
        Op::Destination { display, .. } => display < nd,
    }
}

/// Whether every resource that the scene names lies within the first `n`.
pub open spec fn refs_bounded(s: Scene, n: int) -> bool {
    &&& forall|i: int|
        0 <= i < s.elements.len() ==> (#[trigger] s.elements[i]).source.0 <= n
            && s.elements[i].alpha.mask.0 <= n
    &&& forall|i: int| 0 <= i < s.displays.len() ==> (#[trigger] s.displays[i]).destination.0 <= n
}

/// Whether the element at index `i` is part of display `d`'s composition.
pub open spec fn on_display(s: Scene, d: DisplayHandle, i: int) -> bool {
    0 <= i < s.elements.len() && s.elements[i].state == ElementState::Live && s.elements[i].display
        == d
}

/// Whether element `a` is drawn under element `b`: on a lower layer, or on
/// the same layer and added earlier.
pub open spec fn below(s: Scene, a: ElementHandle, b: ElementHandle) -> bool {
    let la = s.elements[a.0 - 1].layer;
    let lb = s.elements[b.0 - 1].layer;
    la < lb || (la == lb && a.0 < b.0)
}

/// Whether `order` lists the elements of display `d`'s composition, each
/// once, from the bottom up.
pub open spec fn is_composition(s: Scene, d: DisplayHandle, order: Seq<ElementHandle>) -> bool {
    &&& forall|k: int| 0 <= k < order.len() ==> on_display(s, d, (#[trigger] order[k]).0 - 1)
    &&& forall|i: int| on_display(s, d, i) ==> order.contains(ElementHandle((i + 1) as u32))
    &&& forall|a: int, b: int|
        0 <= a < b < order.len() ==> below(s, #[trigger] order[a], #[trigger] order[b])
}

/// Callbacks due at a refresh among the first `n` displays: each open
/// display with a callback token, in table order.
pub open spec fn callbacks_due(ds: Seq<DisplaySlot>, n: int) -> Seq<(DisplayHandle, u64)>
    decreases n,
{
    if n <= 0 {
        Seq::empty()
    } else {
        let d = ds[n - 1];
        let rest = callbacks_due(ds, n - 1);
        if d.open && d.vsync_callback is Some {
            rest.push((DisplayHandle(n as u32), d.vsync_callback.unwrap()))
        } else {
            rest
        }
    }
}

/// Whether every display that composites to an output, not into a
/// resource, has the size of that output.
pub open spec fn outputs_sized(s: Scene, outputs: Seq<GraphicsDisplaySize>) -> bool {
    forall|i: int|
        0 <= i < s.displays.len() && (#[trigger] s.displays[i]).destination.0 == 0 ==> {
            let d = s.displays[i];
            &&& d.device < outputs.len()
            &&& d.width == outputs[d.device as int].width
            &&& d.height == outputs[d.device as int].height
        }
}

/// Applying a change keeps every output display at its output's size.
pub proof fn lemma_apply_op_sized(s: Scene, op: Op, outputs: Seq<GraphicsDisplaySize>, n: int)
    requires
        outputs_sized(s, outputs),
        op_bounded(op, n),
    ensures
        outputs_sized(apply_op(s, op), outputs),
{
    let t = apply_op(s, op);
    assert forall|i: int| 0 <= i < t.displays.len() && (#[trigger] t.displays[i]).destination.0
        == 0 implies {
        let d = t.displays[i];
        &&& d.device < outputs.len()
        &&& d.width == outputs[d.device as int].width
        &&& d.height == outputs[d.device as int].height
    } by {
        assert(s.displays[i].destination.0 == 0);
    }
}

/// Applying a change keeps every resource named within the first `n`.
pub proof fn lemma_apply_op_bounded(s: Scene, op: Op, n: int)
    requires
        refs_bounded(s, n),
        op_bounded(op, n),
    ensures
        refs_bounded(apply_op(s, op), n),
        apply_op(s, op).elements.len() == s.elements.len(),
        apply_op(s, op).displays.len() == s.displays.len(),
{
    let t = apply_op(s, op);
    assert forall|i: int| 0 <= i < t.elements.len() implies (#[trigger] t.elements[i]).source.0
        <= n && t.elements[i].alpha.mask.0 <= n by {
        assert(s.elements[i].source.0 <= n);
    }
    assert forall|i: int| 0 <= i < t.displays.len() implies (
    #[trigger] t.displays[i]).destination.0 <= n by {
        assert(s.displays[i].destination.0 <= n);
    }
}

/// Within one update, adding an element and then removing it changes no
/// display's composition: applying the two changes leaves every element that
/// was part of a composition where it was.
pub proof fn lemma_add_then_remove(s: Scene, i: usize)
    requires
        0 <= i < s.elements.len(),
        s.elements[i as int].state == ElementState::Pending,
    ensures
        forall|d: DisplayHandle, j: int|
            on_display(
                apply_ops(s, seq![Op::Add { element: i }, Op::Remove { element: i }]),
                d,
                j,
            ) == on_display(s, d, j),
{
    let ops = seq![Op::Add { element: i }, Op::Remove { element: i }];
    assert(ops.drop_last() =~= seq![Op::Add { element: i }]);
    assert(ops.drop_last().drop_last() =~= Seq::<Op>::empty());
    let s1 = apply_op(s, Op::Add { element: i });
    assert(apply_ops(s, Seq::<Op>::empty()) == s);
    assert(apply_ops(s, ops.drop_last()) == s1);
    let t = apply_ops(s, ops);
    assert(t == apply_op(s1, Op::Remove { element: i }));
    assert(t.elements =~= s.elements.update(
        i as int,
        ElementSlot { state: ElementState::Removed, ..s.elements[i as int] },
    ));
}

/// Of two elements of one composition, the one on layer 1 is drawn above
/// the one on layer 0, whichever was added first.
pub proof fn lemma_higher_layer_on_top(
    s: Scene,
    d: DisplayHandle,
    order: Seq<ElementHandle>,
    a: int,
    b: int,
)
    requires
        is_composition(s, d, order),
        0 <= a < order.len(),
        0 <= b < order.len(),
        s.elements[order[a].0 - 1].layer == 0,
        s.elements[order[b].0 - 1].layer == 1,
    ensures
        a < b,
{
    if b < a {
        assert(below(s, order[b], order[a]));
    }
}

/// A change of attributes that selects only the opacity keeps the element's
/// destination rectangle and transform, whatever values are passed for them.
pub proof fn lemma_opacity_change_keeps_geometry(
    e: ElementSlot,
    layer: i32,
    opacity: u8,
    mask: ResourceHandle,
    dest_rect: Rect,
    src_rect: Rect,
    transform: Transform,
)
    ensures
        ({
            let c = changed_attributes(
                e,
                ELEMENT_CHANGE_OPACITY,
                layer,
                opacity,
                mask,
                dest_rect,
                src_rect,
                transform,
            );
            &&& c.dest_rect == e.dest_rect
            &&& c.transform == e.transform
            &&& c.alpha.opacity == opacity as u32
        }),
{
    assert(2u32 & 4u32 == 0u32) by (bit_vector);
    assert(2u32 & 32u32 == 0u32) by (bit_vector);
    assert(2u32 & 2u32 != 0u32) by (bit_vector);
}

/// A scene with one more element and one more display at the end.
pub open spec fn extend(s: Scene, e: ElementSlot, d: DisplaySlot) -> Scene {
    Scene { elements: s.elements.push(e), displays: s.displays.push(d) }
}

/// Changes that name only elements and displays of `s` act on `s` extended
/// by a new element and display as on `s`, and leave the new ones alone.
pub proof fn lemma_ops_extend(s: Scene, ops: Seq<Op>, e: ElementSlot, d: DisplaySlot)
    requires
        forall|k: int|
            0 <= k < ops.len() ==> op_in_scene(
                #[trigger] ops[k],
                s.elements.len() as int,
                s.displays.len() as int,
            ),
    ensures
        apply_ops(extend(s, e, d), ops) == extend(apply_ops(s, ops), e, d),
        apply_ops(s, ops).elements.len() == s.elements.len(),
        apply_ops(s, ops).displays.len() == s.displays.len(),
    decreases ops.len(),
{
    if ops.len() > 0 {
        let rest = ops.drop_last();
        assert forall|k: int| 0 <= k < rest.len() implies op_in_scene(
            #[trigger] rest[k],
            s.elements.len() as int,
            s.displays.len() as int,
        ) by {
            assert(rest[k] == ops[k]);
        }
        lemma_ops_extend(s, rest, e, d);
        let t = apply_ops(s, rest);
        let op = ops.last();
        assert(op_in_scene(op, s.elements.len() as int, s.displays.len() as int));
        let left = apply_op(extend(t, e, d), op);
        let right = extend(apply_op(t, op), e, d);
        assert(left.elements =~= right.elements);
        assert(left.displays =~= right.displays);
    }
}

/// Updates whose changes name only elements and displays of `s` act on `s`
/// extended by a new element and display as on `s`.
pub proof fn lemma_batches_extend(s: Scene, batches: Seq<Seq<Op>>, e: ElementSlot, d: DisplaySlot)
    requires
        forall|b: int, k: int|
            0 <= b < batches.len() && 0 <= k < batches[b].len() ==> op_in_scene(
                #[trigger] batches[b][k],
                s.elements.len() as int,
                s.displays.len() as int,
            ),
    ensures
        apply_batches(extend(s, e, d), batches) == extend(apply_batches(s, batches), e, d),
        apply_batches(s, batches).elements.len() == s.elements.len(),
        apply_batches(s, batches).displays.len() == s.displays.len(),
    decreases batches.len(),
{
    if batches.len() > 0 {
        let rest = batches.drop_last();
        assert forall|b: int, k: int| 0 <= b < rest.len() && 0 <= k < rest[b].len() implies op_in_scene(
            #[trigger] rest[b][k],
            s.elements.len() as int,
            s.displays.len() as int,
        ) by {
            assert(rest[b] == batches[b]);
        }
        lemma_batches_extend(s, rest, e, d);
        let t = apply_batches(s, rest);
        let last = batches.last();
        assert forall|k: int| 0 <= k < last.len() implies op_in_scene(
            #[trigger] last[k],
            t.elements.len() as int,
            t.displays.len() as int,
        ) by {
            assert(op_in_scene(batches[batches.len() - 1][k], s.elements.len() as int, s.displays.len() as int));
        }
        lemma_ops_extend(t, last, e, d);
    }
}

} // verus!
