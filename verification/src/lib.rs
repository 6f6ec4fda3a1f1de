//! The core of a podcast client for the terminal: stores of podcasts and
//! episodes that threads share, menus that show a window of a store, and the
//! text of their lines.

pub mod selection;
pub mod store;
pub mod text;
pub mod types;
pub mod ui;

use vstd::prelude::*;

verus! {

/// A podcast's title carries the played and total counts only in a line
/// wider than this.
pub const PODCAST_UNPLAYED_TOTALS_LENGTH: usize = 25;

/// An episode's title carries the duration only in a line wider than this.
pub const EPISODE_DURATION_LENGTH: usize = 45;

/// An episode's title carries the publication date only in a line wider
/// than this.
pub const EPISODE_PUBDATE_LENGTH: usize = 60;

} // verus!
