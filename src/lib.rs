//! A verified model of a layered hardware display compositor.
//!
//! Pixel buffers (resources) are placed on compositor targets (displays) as
//! layered, blended views (elements). Every change to the element set goes
//! through an update: a transaction that batches changes and applies them as
//! one unit, either at once (`submit_sync`) or at the next refresh (`vsync`).
//!
//! - `compositor`: the handle tables and every operation on them.
//! - `scene`: element and display records, the changes an update carries and
//!   what applying them does.
//! - `pixels`: reading and writing rectangles of a resource's bytes.
//! - `dispmanx`, `display`, `image`, `bcm_host`: the value types of the
//!   native interface; each enum's `code` gives the number the native side
//!   expects.

pub mod bcm_host;
pub mod compositor;
pub mod display;
pub mod dispmanx;
pub mod image;
pub mod pixels;
pub mod scene;
