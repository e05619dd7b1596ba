use vstd::prelude::*;

verus! {

/// Which kind of result the search page shows.
#[derive(Clone, Copy, Debug, PartialEq, Eq)]
pub enum SearchFilter {
    All,
    Songs,
    Artists,
    Albums,
    Playlists,
    Podcasts,
    Episodes,
}

impl Default for SearchFilter {
    fn default() -> (r: Self)
        ensures
            r == SearchFilter::All,
    {
        SearchFilter::All
    }
}

impl SearchFilter {
    pub const ALL: [SearchFilter; 7] = [
        Self::All,
        Self::Songs,
        Self::Artists,
        Self::Albums,
        Self::Playlists,
        Self::Podcasts,
        Self::Episodes,
    ];

    /// The caption of the filter's button.
    pub open spec fn caption(self) -> Seq<char> {
        match self {
            Self::All => "All"@,
            Self::Songs => "Songs"@,
            Self::Artists => "Artists"@,
            Self::Albums => "Albums"@,
            Self::Playlists => "Playlists"@,
            Self::Podcasts => "Podcasts"@,
            Self::Episodes => "Episodes"@,
        }
    }

    pub fn label(self) -> (r: &'static str)
        ensures
            r@ == self.caption(),
    {
        match self {
            Self::All => "All",
            Self::Songs => "Songs",
            Self::Artists => "Artists",
            Self::Albums => "Albums",
            Self::Playlists => "Playlists",
            Self::Podcasts => "Podcasts",
            Self::Episodes => "Episodes",
        }
    }
}

/// Which releases an artist page lists.
#[derive(Clone, Copy, Debug, PartialEq, Eq)]
pub enum DiscographyFilter {
    All,
    Albums,
    Singles,
    AppearsOn,
}

impl Default for DiscographyFilter {
    fn default() -> (r: Self)
        ensures
            r == DiscographyFilter::All,
    {
        DiscographyFilter::All
    }
}

impl DiscographyFilter {
    pub const ALL: [DiscographyFilter; 4] = [Self::All, Self::Albums, Self::Singles, Self::AppearsOn];

    /// The caption of the filter's button.
    pub open spec fn caption(self) -> Seq<char> {
        match self {
            Self::All => "All"@,
            Self::Albums => "Albums"@,
            Self::Singles => "Singles & EPs"@,
            Self::AppearsOn => "Appears On"@,
        }
    }

    /// The album groups the Web API is asked for.
    pub open spec fn group_list(self) -> Seq<char> {
        match self {
            Self::All => "album,single,compilation"@,
            Self::Albums => "album"@,
            Self::Singles => "single"@,
            Self::AppearsOn => "appears_on"@,
        }
    }

    pub fn label(self) -> (r: &'static str)
        ensures
            r@ == self.caption(),
    {
        match self {
            Self::All => "All",
            Self::Albums => "Albums",
            Self::Singles => "Singles & EPs",
            Self::AppearsOn => "Appears On",
        }
    }

    pub fn groups(self) -> (r: &'static str)
        ensures
            r@ == self.group_list(),
    {
        match self {
            Self::All => "album,single,compilation",
            Self::Albums => "album",
            Self::Singles => "single",
            Self::AppearsOn => "appears_on",
        }
    }
}

/// A table's sort, chosen by clicking a column heading.
#[derive(Clone, Copy, Debug, PartialEq, Eq)]
pub struct TableSort {
    pub column: SortColumn,
    pub ascending: bool,
}

/// The column a track table is sorted by.
#[derive(Clone, Copy, Debug, PartialEq, Eq, Hash)]
pub enum SortColumn {
    Title,
    Album,
    Added,
    Duration,
    AddedBy,
    /// The list's own order, for playing it reversed from the # heading.
    Index,
}

} // verus!
