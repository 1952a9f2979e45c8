//! Converts timed overlay comments ("danmu") into an ASS subtitle document:
//! estimates on-screen text widths, schedules comments into horizontal lanes
//! so that co-lane comments never overlap, plans their motion, and serializes
//! the result with a fixed preamble.

pub mod arith;
pub mod ass_creator;
pub mod canvas;
pub mod cli;
pub mod dandan;
pub mod dandan_match;
pub mod input_file;
pub mod danmu;
pub mod drawable;
pub mod fmt;
pub mod parse;
pub mod text;
pub mod util;
pub mod width;

pub use ass_creator::AssCreator;
pub use canvas::{Canvas, CanvasConfig};
pub use dandan::Dandan;
pub use danmu::{Danmu, DanmuType};
pub use drawable::{DrawEffect, Drawable};
