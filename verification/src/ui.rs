use vstd::prelude::*;
use std::time::Instant;

verus! {

/// A moment of the monotonic clock, as std's `Instant`; nothing is known of
/// its value.
#[verifier::external_type_specification]
#[verifier::external_body]
pub struct ExInstant(Instant);

/// `Instant` is `Copy`: std's `clone` of it hands back the same moment.
pub assume_specification[ <Instant as Clone>::clone ](instant: &Instant) -> (r: Instant)
    ensures
        r == *instant,
;

/// Playback and action context for a track row.
#[derive(Clone, Debug, PartialEq)]
pub enum RowContext {
    /// A Spotify context (playlist, album) that can be played from an offset.
    Context {
        uri: String,
        /// The playlist id when the user owns it, enabling removal.
        editable_playlist: Option<(String, Option<String>)>,
    },
    /// A loose list of tracks, played as a queue of URIs.
    Uris(Vec<String>),
    /// A Next up row. Playing it consumes that row and all rows before it.
    Queue,
    /// A sorted or filtered context view that plays the displayed rows.
    View { uris: Vec<String>, context_uri: String },
}

/// Track data held during a drag.
#[derive(Clone, Debug)]
pub struct DragTrack {
    pub uri: String,
    pub title: String,
    /// Cover art for the drag preview.
    pub image: Option<String>,
    /// Source playlist ID and row index for moves within an editable playlist.
    pub from: Option<(String, u32)>,
}

/// Sidebar entry held during a drag.
#[derive(Clone, Debug)]
pub struct DragEntry {
    pub uri: String,
    pub title: String,
    pub image: Option<String>,
}

/// A modal dialog over the main window.
#[derive(Clone, Debug)]
pub enum Dialog {
    CreatePlaylist { name: String, public: bool, add_uris: Vec<String> },
    EditPlaylist { id: String, name: String, description: String, public: bool },
    ConfirmDeletePlaylist { id: String, name: String, owned: bool },
    Shortcuts,
    /// The signed-in account is not Premium, so nothing will play.
    PremiumNeeded,
}

/// How a notification is shown.
#[derive(Clone, Debug, PartialEq, Eq)]
pub enum ToastKind {
    Info,
    Error,
}

/// A short notification, with the moment it appeared.
#[derive(Clone, Debug)]
pub struct Toast {
    pub message: String,
    pub kind: ToastKind,
    pub created: Instant,
}

} // verus!
