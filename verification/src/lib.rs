//! A headless stand-in for a platform window and its sprite atlas.
//!
//! The window keeps the state that a real platform window would report
//! (bounds, appearance, fullscreen, text-input traffic, external drags) and
//! the frame-scheduling protocol; the atlas stores tiles and their pixels and
//! applies strided dirty-region uploads.

use vstd::prelude::*;

pub mod geometry;
pub mod atlas;
pub mod window;
pub mod history;
