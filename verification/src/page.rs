use vstd::prelude::*;
use vstd::string::*;

use crate::text::{colon_index, find_colon, lemma_colon_at, lemma_colon_index, same_text, split_once_colon};

verus! {

/// Every screen the central panel can show.
#[derive(Clone, Debug, PartialEq, Eq, Hash)]
pub enum Page {
    Home,
    TopSongs,
    Search,
    LikedSongs,
    Albums,
    Artists,
    Podcasts,
    Episodes,
    Playlist(String),
    Album(String),
    Artist(String),
    Show(String),
    Queue,
    Settings,
}

/// A screen as a value, its id as characters.
pub enum PageView {
    Home,
    TopSongs,
    Search,
    LikedSongs,
    Albums,
    Artists,
    Podcasts,
    Episodes,
    Playlist(Seq<char>),
    Album(Seq<char>),
    Artist(Seq<char>),
    Show(Seq<char>),
    Queue,
    Settings,
}

impl View for Page {
    type V = PageView;

    open spec fn view(&self) -> PageView {
        match self {
            Page::Home => PageView::Home,
            Page::TopSongs => PageView::TopSongs,
            Page::Search => PageView::Search,
            Page::LikedSongs => PageView::LikedSongs,
            Page::Albums => PageView::Albums,
            Page::Artists => PageView::Artists,
            Page::Podcasts => PageView::Podcasts,
            Page::Episodes => PageView::Episodes,
            Page::Playlist(id) => PageView::Playlist(id@),
            Page::Album(id) => PageView::Album(id@),
            Page::Artist(id) => PageView::Artist(id@),
            Page::Show(id) => PageView::Show(id@),
            Page::Queue => PageView::Queue,
            Page::Settings => PageView::Settings,
        }
    }
}

/// The screen of an item kind (`playlist`, `album`, `artist`, `show`) with the given id.
pub open spec fn page_of_kind(kind: Seq<char>, id: Seq<char>) -> Option<PageView> {
    if kind == "playlist"@ {
        Some(PageView::Playlist(id))
    } else if kind == "album"@ {
        Some(PageView::Album(id))
    } else if kind == "artist"@ {
        Some(PageView::Artist(id))
    } else if kind == "show"@ {
        Some(PageView::Show(id))
    } else {
        None
    }
}

impl PageView {
    /// The text under which the screen is stored.
    pub open spec fn encoded(self) -> Seq<char> {
        match self {
            PageView::Home => "home"@,
            PageView::TopSongs => "top-songs"@,
            PageView::Search => "search"@,
            PageView::LikedSongs => "liked"@,
            PageView::Albums => "albums"@,
            PageView::Artists => "artists"@,
            PageView::Podcasts => "podcasts"@,
            PageView::Episodes => "episodes"@,
            PageView::Playlist(id) => "playlist:"@ + id,
            PageView::Album(id) => "album:"@ + id,
            PageView::Artist(id) => "artist:"@ + id,
            PageView::Show(id) => "show:"@ + id,
            PageView::Queue => "queue"@,
            PageView::Settings => "settings"@,
        }
    }

    /// The screen stored under `text`, if `text` names one: a fixed word,
    /// or an item kind and an id joined by the first `:`.
    pub open spec fn decoded(text: Seq<char>) -> Option<PageView> {
        if text == "home"@ {
            Some(PageView::Home)
        } else if text == "top-songs"@ {
            Some(PageView::TopSongs)
        } else if text == "search"@ {
            Some(PageView::Search)
        } else if text == "liked"@ {
            Some(PageView::LikedSongs)
        } else if text == "albums"@ {
            Some(PageView::Albums)
        } else if text == "artists"@ {
            Some(PageView::Artists)
        } else if text == "podcasts"@ {
            Some(PageView::Podcasts)
        } else if text == "episodes"@ {
            Some(PageView::Episodes)
        } else if text == "queue"@ {
            Some(PageView::Queue)
        } else if text == "settings"@ {
            Some(PageView::Settings)
        } else {
            match split_once_colon(text) {
                Some((kind, id)) => page_of_kind(kind, id),
                None => None,
            }
        }
    }

    /// The screen that a Spotify URI such as `spotify:playlist:ID` points at:
    /// the text between the first and the second `:` names the kind, and the
    /// text after the second `:`, up to a third one, is the id.
    pub open spec fn of_uri(uri: Seq<char>) -> Option<PageView> {
        match split_once_colon(uri) {
            None => None,
            Some((_scheme, rest)) => match split_once_colon(rest) {
                None => None,
                Some((kind, tail)) => {
                    let id = match split_once_colon(tail) {
                        Some((first, _)) => first,
                        None => tail,
                    };
                    page_of_kind(kind, id)
                },
            },
        }
    }
}

/// The screen of an item kind, built from exec values.
fn page_for_kind(kind: &str, id: &str) -> (r: Option<Page>)
    ensures
        page_of_kind(kind@, id@) == match r {
            Some(p) => Some(p@),
            None => None,
        },
{
    if same_text(kind, "playlist") {
        Some(Page::Playlist(id.to_owned()))
    } else if same_text(kind, "album") {
        Some(Page::Album(id.to_owned()))
    } else if same_text(kind, "artist") {
        Some(Page::Artist(id.to_owned()))
    } else if same_text(kind, "show") {
        Some(Page::Show(id.to_owned()))
    } else {
        None
    }
}

/// `prefix` followed by `id`.
fn joined(prefix: &str, id: &String) -> (r: String)
    ensures
        r@ == prefix@ + id@,
{
    let mut s = prefix.to_owned();
    s.append(id.as_str());
    s
}

impl Page {
    pub fn encode(&self) -> (r: String)
        ensures
            r@ == self@.encoded(),
    {
        match self {
            Page::Home => "home".to_owned(),
            Page::TopSongs => "top-songs".to_owned(),
            Page::Search => "search".to_owned(),
            Page::LikedSongs => "liked".to_owned(),
            Page::Albums => "albums".to_owned(),
            Page::Artists => "artists".to_owned(),
            Page::Podcasts => "podcasts".to_owned(),
            Page::Episodes => "episodes".to_owned(),
            Page::Playlist(id) => joined("playlist:", id),
            Page::Album(id) => joined("album:", id),
            Page::Artist(id) => joined("artist:", id),
            Page::Show(id) => joined("show:", id),
            Page::Queue => "queue".to_owned(),
            Page::Settings => "settings".to_owned(),
        }
    }

    pub fn decode(text: &str) -> (r: Option<Self>)
        ensures
            PageView::decoded(text@) == match r {
                Some(p) => Some(p@),
                None => None,
            },
    {
        if same_text(text, "home") {
            return Some(Page::Home);
        }
        if same_text(text, "top-songs") {
            return Some(Page::TopSongs);
        }
        if same_text(text, "search") {
            return Some(Page::Search);
        }
        if same_text(text, "liked") {
            return Some(Page::LikedSongs);
        }
        if same_text(text, "albums") {
            return Some(Page::Albums);
        }
        if same_text(text, "artists") {
            return Some(Page::Artists);
        }
        if same_text(text, "podcasts") {
            return Some(Page::Podcasts);
        }
        if same_text(text, "episodes") {
            return Some(Page::Episodes);
        }
        if same_text(text, "queue") {
            return Some(Page::Queue);
        }
        if same_text(text, "settings") {
            return Some(Page::Settings);
        }
        let i = match find_colon(text) {
            Some(i) => i,
            None => {
                return None;
            },
        };
        proof {
            lemma_colon_index(text@);
        }
        let n = text.unicode_len();
        let kind = text.substring_char(0, i);
        let id = text.substring_char(i + 1, n);
        assert(kind@ =~= text@.take(i as int));
        assert(id@ =~= text@.skip(i + 1));
        page_for_kind(kind, id)
    }

    /// Opens whatever a Spotify URI points at.
    pub fn from_uri(uri: &str) -> (r: Option<Self>)
        ensures
            PageView::of_uri(uri@) == match r {
                Some(p) => Some(p@),
                None => None,
            },
    {
        let n = uri.unicode_len();
        let first = match find_colon(uri) {
            Some(i) => i,
            None => {
                return None;
            },
        };
        proof {
            lemma_colon_index(uri@);
        }
        let rest = uri.substring_char(first + 1, n);
        assert(rest@ =~= uri@.skip(first + 1));
        let rest_len = rest.unicode_len();
        let second = match find_colon(rest) {
            Some(i) => i,
            None => {
                return None;
            },
        };
        proof {
            lemma_colon_index(rest@);
        }
        let kind = rest.substring_char(0, second);
        let tail = rest.substring_char(second + 1, rest_len);
        assert(kind@ =~= rest@.take(second as int));
        assert(tail@ =~= rest@.skip(second + 1));
        let id = match find_colon(tail) {
            Some(third) => {
                proof {
                    lemma_colon_index(tail@);
                }
                let id = tail.substring_char(0, third);
                assert(id@ =~= tail@.take(third as int));
                id
            },
            None => tail,
        };
        page_for_kind(kind, id)
    }
}

/// Which list the queue panel shows.
#[derive(Clone, Copy, Debug, PartialEq, Eq)]
pub enum QueueTab {
    Queue,
    Recents,
}

impl Default for QueueTab {
    fn default() -> (r: Self)
        ensures
            r == QueueTab::Queue,
    {
        QueueTab::Queue
    }
}

impl QueueTab {
    /// The text under which the tab is stored.
    pub open spec fn encoded(self) -> Seq<char> {
        match self {
            QueueTab::Queue => "queue"@,
            QueueTab::Recents => "recents"@,
        }
    }

    /// The tab stored under `text`; the tab's former name still names it.
    pub open spec fn decoded(text: Seq<char>) -> Option<QueueTab> {
        if text == "queue"@ {
            Some(QueueTab::Queue)
        } else if text == "recents"@ {
            Some(QueueTab::Recents)
        } else if text == "recently_played"@ {
            Some(QueueTab::Recents)
        } else {
            None
        }
    }

    pub fn encode(self) -> (r: &'static str)
        ensures
            r@ == self.encoded(),
    {
        match self {
            Self::Queue => "queue",
            Self::Recents => "recents",
        }
    }

    pub fn decode(text: &str) -> (r: Option<Self>)
        ensures
            r == Self::decoded(text@),
    {
        if same_text(text, "queue") {
            Some(Self::Queue)
        } else if same_text(text, "recents") {
            Some(Self::Recents)
        } else if same_text(text, "recently_played") {
            // Backward compatibility with the old tab name.
            Some(Self::Recents)
        } else {
            None
        }
    }
}

/// `word:` followed by `id` splits at the `:` after `word`.
proof fn lemma_split_kind(word: Seq<char>, prefix: Seq<char>, id: Seq<char>)
    requires
        prefix == word.push(':'),
        forall|j: int| 0 <= j < word.len() ==> word[j] != ':',
    ensures
        split_once_colon(prefix + id) == Some((word, id)),
{
    let t = prefix + id;
    assert(t[word.len() as int] == ':');
    assert forall|j: int| 0 <= j < word.len() implies t[j] != ':' by {
        assert(t[j] == word[j]);
    }
    lemma_colon_at(t, word.len() as int);
    assert(t.take(word.len() as int) =~= word);
    assert(t.skip(word.len() as int + 1) =~= id);
}

/// Decoding the stored text of a screen gives the screen back.
pub proof fn lemma_page_decode_encode(p: PageView)
    ensures
        PageView::decoded(p.encoded()) == Some(p),
{
    reveal_strlit("home");
    reveal_strlit("top-songs");
    reveal_strlit("search");
    reveal_strlit("liked");
    reveal_strlit("albums");
    reveal_strlit("artists");
    reveal_strlit("podcasts");
    reveal_strlit("episodes");
    reveal_strlit("queue");
    reveal_strlit("settings");
    reveal_strlit("playlist");
    reveal_strlit("album");
    reveal_strlit("artist");
    reveal_strlit("show");
    reveal_strlit("playlist:");
    reveal_strlit("album:");
    reveal_strlit("artist:");
    reveal_strlit("show:");
    match p {
        PageView::Playlist(id) => {
            let t = "playlist:"@ + id;
            assert(t[8] == ':');
            assert("playlist:"@ =~= "playlist"@.push(':'));
            lemma_split_kind("playlist"@, "playlist:"@, id);
        },
        PageView::Album(id) => {
            let t = "album:"@ + id;
            assert(t[5] == ':');
            assert("album:"@ =~= "album"@.push(':'));
            lemma_split_kind("album"@, "album:"@, id);
        },
        PageView::Artist(id) => {
            let t = "artist:"@ + id;
            assert(t[6] == ':');
            assert("artist:"@ =~= "artist"@.push(':'));
            lemma_split_kind("artist"@, "artist:"@, id);
        },
        PageView::Show(id) => {
            let t = "show:"@ + id;
            assert(t[4] == ':');
            assert("show:"@ =~= "show"@.push(':'));
            lemma_split_kind("show"@, "show:"@, id);
        },
        _ => {},
    }
}

/// Text that decodes to a screen is exactly that screen's stored text.
pub proof fn lemma_page_encode_decode(text: Seq<char>)
    requires
        PageView::decoded(text) is Some,
    ensures
        PageView::decoded(text)->0.encoded() == text,
{
    reveal_strlit("home");
    reveal_strlit("top-songs");
    reveal_strlit("search");
    reveal_strlit("liked");
    reveal_strlit("albums");
    reveal_strlit("artists");
    reveal_strlit("podcasts");
    reveal_strlit("episodes");
    reveal_strlit("queue");
    reveal_strlit("settings");
    reveal_strlit("playlist");
    reveal_strlit("album");
    reveal_strlit("artist");
    reveal_strlit("show");
    reveal_strlit("playlist:");
    reveal_strlit("album:");
    reveal_strlit("artist:");
    reveal_strlit("show:");
    lemma_colon_index(text);
    match colon_index(text) {
        Some(i) => {
            assert(text =~= text.take(i) + seq![':'] + text.skip(i + 1));
            assert("playlist:"@ =~= "playlist"@ + seq![':']);
            assert("album:"@ =~= "album"@ + seq![':']);
            assert("artist:"@ =~= "artist"@ + seq![':']);
            assert("show:"@ =~= "show"@ + seq![':']);
        },
        None => {},
    }
}

/// Decoding the stored text of a queue tab gives the tab back; the tab's
/// former name `recently_played` still opens the recents tab.
pub proof fn lemma_queue_tab_decode_encode(tab: QueueTab)
    ensures
        QueueTab::decoded(tab.encoded()) == Some(tab),
        QueueTab::decoded("recently_played"@) == Some(QueueTab::Recents),
{
    reveal_strlit("queue");
    reveal_strlit("recents");
    reveal_strlit("recently_played");
    assert("recently_played"@.len() == 15);
    assert("recently_played"@ != "queue"@);
    assert("recently_played"@ != "recents"@);
    assert(QueueTab::decoded("recently_played"@) == Some(QueueTab::Recents));
    assert("recents"@.len() == 7);
    assert("queue"@.len() == 5);
    assert("queue"@ != "recents"@);
}

/// A URI `scheme:kind:id` opens the screen that `kind:id` decodes to,
/// whatever the scheme: each of the four item kinds opens its screen with
/// the id, and parts after a further `:` are ignored.
pub proof fn law_uri_opens_kind(scheme: Seq<char>, kind: Seq<char>, id: Seq<char>, extra: Seq<char>)
    requires
        forall|j: int| 0 <= j < scheme.len() ==> scheme[j] != ':',
        forall|j: int| 0 <= j < kind.len() ==> kind[j] != ':',
        forall|j: int| 0 <= j < id.len() ==> id[j] != ':',
    ensures
        PageView::of_uri(scheme.push(':') + (kind.push(':') + id)) == PageView::decoded(
            kind.push(':') + id,
        ),
        PageView::of_uri(scheme.push(':') + (kind.push(':') + (id.push(':') + extra)))
            == PageView::decoded(kind.push(':') + id),
        kind == "playlist"@ ==> PageView::of_uri(scheme.push(':') + (kind.push(':') + id)) == Some(
            PageView::Playlist(id),
        ),
        kind == "album"@ ==> PageView::of_uri(scheme.push(':') + (kind.push(':') + id)) == Some(
            PageView::Album(id),
        ),
        kind == "artist"@ ==> PageView::of_uri(scheme.push(':') + (kind.push(':') + id)) == Some(
            PageView::Artist(id),
        ),
        kind == "show"@ ==> PageView::of_uri(scheme.push(':') + (kind.push(':') + id)) == Some(
            PageView::Show(id),
        ),
        kind != "playlist"@ && kind != "album"@ && kind != "artist"@ && kind != "show"@
            ==> PageView::of_uri(scheme.push(':') + (kind.push(':') + id)) is None,
{
    reveal_strlit("home");
    reveal_strlit("top-songs");
    reveal_strlit("search");
    reveal_strlit("liked");
    reveal_strlit("albums");
    reveal_strlit("artists");
    reveal_strlit("podcasts");
    reveal_strlit("episodes");
    reveal_strlit("queue");
    reveal_strlit("settings");
    reveal_strlit("playlist");
    reveal_strlit("album");
    reveal_strlit("artist");
    reveal_strlit("show");
    let text = kind.push(':') + id;
    let longer = kind.push(':') + (id.push(':') + extra);
    lemma_split_kind(scheme, scheme.push(':'), text);
    lemma_split_kind(scheme, scheme.push(':'), longer);
    lemma_split_kind(kind, kind.push(':'), id);
    lemma_split_kind(kind, kind.push(':'), id.push(':') + extra);
    lemma_split_kind(id, id.push(':'), extra);
    lemma_colon_index(id);
    assert(text[kind.len() as int] == ':');
    assert(text != "home"@ && text != "top-songs"@ && text != "search"@ && text != "liked"@);
    assert(text != "albums"@ && text != "artists"@ && text != "podcasts"@);
    assert(text != "episodes"@ && text != "queue"@ && text != "settings"@);
}

/// The words under which the fixed screens are stored, and the item kinds,
/// each with the screen it decodes to.
pub proof fn law_page_words(id: Seq<char>)
    ensures
        PageView::decoded("home"@) == Some(PageView::Home),
        PageView::decoded("top-songs"@) == Some(PageView::TopSongs),
        PageView::decoded("search"@) == Some(PageView::Search),
        PageView::decoded("liked"@) == Some(PageView::LikedSongs),
        PageView::decoded("albums"@) == Some(PageView::Albums),
        PageView::decoded("artists"@) == Some(PageView::Artists),
        PageView::decoded("podcasts"@) == Some(PageView::Podcasts),
        PageView::decoded("episodes"@) == Some(PageView::Episodes),
        PageView::decoded("queue"@) == Some(PageView::Queue),
        PageView::decoded("settings"@) == Some(PageView::Settings),
        PageView::decoded("playlist"@.push(':') + id) == Some(PageView::Playlist(id)),
        PageView::decoded("album"@.push(':') + id) == Some(PageView::Album(id)),
        PageView::decoded("artist"@.push(':') + id) == Some(PageView::Artist(id)),
        PageView::decoded("show"@.push(':') + id) == Some(PageView::Show(id)),
{
    reveal_strlit("home");
    reveal_strlit("top-songs");
    reveal_strlit("search");
    reveal_strlit("liked");
    reveal_strlit("albums");
    reveal_strlit("artists");
    reveal_strlit("podcasts");
    reveal_strlit("episodes");
    reveal_strlit("queue");
    reveal_strlit("settings");
    reveal_strlit("playlist:");
    reveal_strlit("album:");
    reveal_strlit("artist:");
    reveal_strlit("show:");
    reveal_strlit("playlist");
    reveal_strlit("album");
    reveal_strlit("artist");
    reveal_strlit("show");
    assert("playlist:"@ =~= "playlist"@.push(':'));
    assert("album:"@ =~= "album"@.push(':'));
    assert("artist:"@ =~= "artist"@.push(':'));
    assert("show:"@ =~= "show"@.push(':'));
    lemma_page_decode_encode(PageView::Home);
    lemma_page_decode_encode(PageView::TopSongs);
    lemma_page_decode_encode(PageView::Search);
    lemma_page_decode_encode(PageView::LikedSongs);
    lemma_page_decode_encode(PageView::Albums);
    lemma_page_decode_encode(PageView::Artists);
    lemma_page_decode_encode(PageView::Podcasts);
    lemma_page_decode_encode(PageView::Episodes);
    lemma_page_decode_encode(PageView::Queue);
    lemma_page_decode_encode(PageView::Settings);
    lemma_page_decode_encode(PageView::Playlist(id));
    lemma_page_decode_encode(PageView::Album(id));
    lemma_page_decode_encode(PageView::Artist(id));
    lemma_page_decode_encode(PageView::Show(id));
}

} // verus!
