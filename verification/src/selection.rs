use vstd::prelude::*;
use std::collections::BTreeSet;

verus! {

/// A track row index known from local play initiation.
#[derive(Clone, Debug, PartialEq, Eq)]
pub struct TrackedPlayRow {
    pub playlist_id: String,
    pub row: usize,
    pub uri: String,
}

/// Progressive locator state machine for finding a track outside loaded pages.
#[derive(Clone, Debug, PartialEq, Eq)]
pub enum PlaylistLocator {
    Idle,
    Locating {
        playlist_id: String,
        target_uri: String,
        generation: u64,
        locator_generation: u64,
        in_flight: BTreeSet<usize>,
        checked_pages: BTreeSet<usize>,
    },
}

impl Default for PlaylistLocator {
    fn default() -> (r: Self)
        ensures
            r is Idle,
    {
        PlaylistLocator::Idle
    }
}

impl PlaylistLocator {
    pub fn is_active(&self) -> (r: bool)
        ensures
            r == self is Locating,
    {
        matches!(self, Self::Locating { .. })
    }

    /// The playlist and the track being looked for, while a search runs.
    pub fn target(&self) -> (r: Option<(&str, &str)>)
        ensures
            r is Some <==> self is Locating,
            r matches Some(t) ==> t.0@ == self->playlist_id@ && t.1@ == self->target_uri@,
    {
        match self {
            Self::Locating { playlist_id, target_uri, .. } => Some(
                (playlist_id.as_str(), target_uri.as_str()),
            ),
            Self::Idle => None,
        }
    }
}

/// Selected track-table rows for batch actions.
///
/// Selection belongs to one page and clears when sorting, filtering, or paging
/// changes the row order.
#[derive(Clone, Debug)]
pub struct RowSelection {
    pub rows: BTreeSet<usize>,
    /// Row used as the anchor for shift-click ranges.
    pub anchor: Option<usize>,
}

impl Default for RowSelection {
    fn default() -> (r: Self)
        ensures
            r.rows@ == Set::<usize>::empty(),
            r.anchor is None,
    {
        RowSelection { rows: BTreeSet::new(), anchor: None }
    }
}

/// Selection behavior for a row click.
#[derive(Clone, Copy, Debug, PartialEq, Eq)]
pub enum RowPick {
    /// Select only this row.
    Only,
    /// Toggle this row.
    Toggle,
    /// Everything from the anchor to here.
    Range,
}

} // verus!
