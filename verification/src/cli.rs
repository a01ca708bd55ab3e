//! The choices of the command line that the library acts on.

use vstd::prelude::*;

verus! {

/// The pixel format asked for on the command line.
#[derive(Clone, Copy, Debug, PartialEq, Eq, Structural)]
pub enum PixelFormat {
    /// The packed layout where the display server offers it.
    Auto,
    /// The four-byte layout that every display server supports.
    Baseline,
}

/// Whether the four-byte layout is forced: only by an explicit `Baseline`.
pub fn force_xrgb8888(pixelformat: Option<PixelFormat>) -> (forced: bool)
    ensures
        forced == (pixelformat == Some(PixelFormat::Baseline)),
{
    match pixelformat {
        Some(PixelFormat::Baseline) => true,
        _ => false,
    }
}

} // verus!
