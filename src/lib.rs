//! Scene graph, resource arenas and frame compositor of a scriptable 2D runtime.
//!
//! Drawables live in generational arenas ([`Arenas`]) and are named by
//! copyable handles; a stale handle finds nothing. Each viewport owns a
//! [`ZList`], kept in paint order (priority, then creation tick). Each frame
//! [`Graphics::draw_calls`] walks the root viewport's list in that order and
//! [`Graphics::frame_wait`] paces the frames.
use vstd::prelude::*;

pub mod arenas;
pub mod bitmap;
pub mod data;
pub mod drawable;
pub mod graphics;
pub mod render;
pub mod slots;
pub mod viewport;
pub mod window;
pub mod z;

pub use arenas::{ArenaError, Arenas};
pub use bitmap::{Bitmap, BitmapData, LoadError};
pub use data::{Rect, Table};
pub use drawable::{Drawable, DrawableMut, DrawableRef};
pub use graphics::{DrawCall, Graphics};
pub use render::{Quad, Ratio, TexQuad, Vertex};
pub use viewport::{Viewport, ViewportData};
pub use window::{Window, WindowData, Windowskin};
pub use z::{Z, ZList};

verus! {

} // verus!
