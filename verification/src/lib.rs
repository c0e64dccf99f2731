//! Talkie: a dialogue presentation engine.
//!
//! The library models a visual-novel-style dialogue session: a parsed
//! document of passage groups, a typewriter-style glyph reveal timer,
//! an edge-detecting input tracker, and the playback state machine that
//! drives them.

use vstd::prelude::*;

pub mod dialogue;
pub mod parse;
pub mod playback;
pub mod text;
pub mod timer;
pub mod tracker;

verus! {

/// How many nanoglyphs make up one whole glyph.
///
/// Reveal progress is accounted in integer "nanoglyph" units: elapsed
/// microseconds multiplied by a rate in milliglyphs per second yield
/// nanoglyphs, and one billion of them reveal one glyph.
pub const NANOGLYPHS_PER_GLYPH: u64 = 1_000_000_000;

} // verus!
