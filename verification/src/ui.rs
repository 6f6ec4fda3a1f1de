//! What the interface thread and the main thread say to each other, and the
//! colors of the interface.

pub mod colors;
pub mod control;
pub mod input;
pub mod menu;
pub mod panel;
pub mod place;
pub mod welcome;

use vstd::prelude::*;

verus! {

/// What the interface asks of the main thread after the user has acted.
/// The numbers are positions: that of the podcast first, then, where there
/// is one, that of the episode.
#[derive(Debug, PartialEq, Eq)]
pub enum UiMsg {
    AddFeed(String),
    Play(usize, usize),
    MarkPlayed(usize, usize, bool),
    MarkAllPlayed(usize, bool),
    Sync(usize),
    SyncAll,
    Download(usize, usize),
    DownloadAll(usize),
    Quit,
    Noop,
}

/// What the main thread asks of the interface.
#[derive(Debug, PartialEq, Eq)]
pub enum MainMessage {
    /// Repaint the menus from the stores.
    UiUpdateMenus,
    /// Show a message for a number of milliseconds; the flag marks an error.
    UiSpawnMsgWin(String, u64, bool),
    /// Restore the terminal and stop.
    UiTearDown,
}

} // verus!
