//! In-memory emulation of ANSI-escaped terminal data and rendering of emulated
//! terminal screens to SVG markup.
//!
//! The crate exposes:
//! - a byte ring buffer ([`ringbuffer::Ringbuffer`]) used to shuttle bytes
//!   between file descriptors under a readiness-driven loop,
//! - a terminal emulator ([`term::Term`]) that interprets a byte stream into a
//!   grid of styled cells,
//! - a color resolver ([`colors::Colors`]) mapping terminal color tokens to
//!   sRGB triples through a fixed 269-entry palette,
//! - an immutable screen snapshot ([`screen::Screen`]) with an SVG renderer,
//! - the decision logic of the proxy event loops ([`proxy`], [`pollset`]).

pub mod colors;
pub mod pollset;
pub mod proxy;
pub mod ringbuffer;
pub mod screen;
pub mod svg;
pub mod term;

pub use colors::Color;
pub use colors::Colors;
pub use colors::Rgb;
pub use ringbuffer::Bytes;
pub use ringbuffer::IoResult;
pub use ringbuffer::Ringbuffer;
pub use screen::most_common_color;
pub use screen::Cell;
pub use screen::Screen;
pub use svg::FontMetrics;
pub use term::emulate;
pub use term::AnsiSignal;
pub use term::PtyWriter;
pub use term::Term;
pub use term::VoidPtyWriter;

use vstd::prelude::*;

verus! {

} // verus!
