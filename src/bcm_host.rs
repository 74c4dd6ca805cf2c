use vstd::prelude::*;

verus! {

/// Size of a physical display, in pixels.
#[derive(Clone, Copy, Debug, PartialEq, Eq, Structural)]
pub struct GraphicsDisplaySize {
    pub height: u32,
    pub width: u32,
}

/// Reads the outcome of a native display-size query: a zero status gives the
/// size that the query filled in; any other status means the size is unknown.
pub fn display_size_from_query(status: i32, width: u32, height: u32) -> (r: Option<
    GraphicsDisplaySize,
>)
    ensures
        r == (if status == 0 {
            Some(GraphicsDisplaySize { height, width })
        } else {
            None
        }),
{
    if status == 0 {
        Some(GraphicsDisplaySize { height, width })
    } else {
        None
    }
}

} // verus!
