use std::time::Instant;

use fastpotify::filters::{DiscographyFilter, SearchFilter, SortColumn, TableSort};
use fastpotify::loadable::Loadable;
use fastpotify::page::{Page, QueueTab};
use fastpotify::paged_list::{CursorList, ItemPage, PagedList};
use fastpotify::selection::{PlaylistLocator, RowSelection};
use fastpotify::sparse_list::SparseList;
use fastpotify::sparse_view::PLAYLIST_PAGE_SIZE;
use fastpotify::ui::{Toast, ToastKind};

fn all_pages() -> Vec<Page> {
    vec![
        Page::Home,
        Page::TopSongs,
        Page::Search,
        Page::LikedSongs,
        Page::Albums,
        Page::Artists,
        Page::Podcasts,
        Page::Episodes,
        Page::Playlist("37i9dQZF1DX".into()),
        Page::Album("a:b".into()),
        Page::Artist("".into()),
        Page::Show("xyz".into()),
        Page::Queue,
        Page::Settings,
    ]
}

#[test]
fn page_decode_gives_back_every_encoded_page() {
    for page in all_pages() {
        assert_eq!(Page::decode(&page.encode()), Some(page));
    }
}

#[test]
fn page_encode_exact_texts() {
    assert_eq!(Page::Home.encode(), "home");
    assert_eq!(Page::TopSongs.encode(), "top-songs");
    assert_eq!(Page::LikedSongs.encode(), "liked");
    assert_eq!(Page::Playlist("abc".into()).encode(), "playlist:abc");
    assert_eq!(Page::Show("s1".into()).encode(), "show:s1");
}

#[test]
fn page_decode_splits_at_first_colon() {
    assert_eq!(Page::decode("album:a:b"), Some(Page::Album("a:b".into())));
    assert_eq!(Page::decode("artist:"), Some(Page::Artist("".into())));
    assert_eq!(Page::decode("track:abc"), None);
    assert_eq!(Page::decode("homepage"), None);
    assert_eq!(Page::decode(""), None);
    assert_eq!(Page::decode("settings"), Some(Page::Settings));
}

#[test]
fn page_from_uri_reads_kind_and_id() {
    assert_eq!(Page::from_uri("spotify:playlist:abc"), Some(Page::Playlist("abc".into())));
    assert_eq!(Page::from_uri("spotify:album:x:extra"), Some(Page::Album("x".into())));
    assert_eq!(Page::from_uri("spotify:show:"), Some(Page::Show("".into())));
    assert_eq!(Page::from_uri("spotify:track:abc"), None);
    assert_eq!(Page::from_uri("spotify:artist"), None);
    assert_eq!(Page::from_uri("playlist"), None);
}

#[test]
fn queue_tab_round_trip_and_old_name() {
    for tab in [QueueTab::Queue, QueueTab::Recents] {
        assert_eq!(QueueTab::decode(tab.encode()), Some(tab));
    }
    assert_eq!(QueueTab::decode("recently_played"), Some(QueueTab::Recents));
    assert_eq!(QueueTab::decode("recent"), None);
    assert_eq!(QueueTab::default(), QueueTab::Queue);
}

#[test]
fn loadable_refresh_keeps_loaded_value_on_failure() {
    let mut value: Loadable<i32> = Loadable::Loaded(7);
    value.refresh(Err::<i32, String>("offline".to_string()));
    assert_eq!(value, Loadable::Loaded(7));
    value.refresh(Ok::<i32, String>(8));
    assert_eq!(value, Loadable::Loaded(8));
    let mut empty: Loadable<i32> = Loadable::Loading;
    empty.refresh(Err::<i32, String>("offline".to_string()));
    assert_eq!(empty, Loadable::Failed("offline".to_string()));
}

#[test]
fn loadable_states() {
    let mut value: Loadable<i32> = Loadable::default();
    assert!(value.needs_load());
    assert!(!value.is_loading());
    assert_eq!(value.get(), None);
    value = Loadable::Loading;
    assert!(value.is_loading());
    assert!(!value.needs_load());
    value = Loadable::from_result(Ok::<i32, String>(3));
    assert_eq!(value.get(), Some(&3));
    if let Some(v) = value.get_mut() {
        *v = 4;
    }
    assert_eq!(value, Loadable::Loaded(4));
    let failed: Loadable<i32> = Loadable::from_result(Err::<i32, u32>(404));
    assert_eq!(failed, Loadable::Failed("404".to_string()));
    assert!(failed.needs_load());
}

#[test]
fn paged_list_absorb_extends_and_replaces() {
    let mut list: PagedList<u32> = PagedList::default();
    assert!(list.can_load_more());
    assert!(!list.is_complete());
    list.absorb(0, ItemPage { items: vec![1, 2, 3], total: 5, next: Some(3) });
    assert_eq!(list.items, vec![1, 2, 3]);
    assert_eq!(list.total, Some(5));
    assert_eq!(list.next_offset, Some(3));
    assert_eq!(list.revision, 1);
    list.absorb(3, ItemPage { items: vec![4, 5], total: 5, next: None });
    assert_eq!(list.items, vec![1, 2, 3, 4, 5]);
    assert!(list.is_complete());
    assert!(!list.can_load_more());
    list.absorb(1, ItemPage { items: vec![9], total: 2, next: None });
    assert_eq!(list.items, vec![1, 9]);
    list.absorb(0, ItemPage { items: vec![7], total: 1, next: None });
    assert_eq!(list.items, vec![7]);
}

#[test]
fn paged_list_reorder_retain_cache_fail_reset() {
    let mut list: PagedList<u32> = PagedList::default();
    list.set_cached(vec![10, 20, 30, 40]);
    assert_eq!(list.total, Some(4));
    assert!(list.is_complete());
    let rev = list.revision;
    list.reorder(0, 3);
    assert_eq!(list.items, vec![20, 30, 10, 40]);
    list.reorder(3, 0);
    assert_eq!(list.items, vec![40, 20, 30, 10]);
    list.reorder(4, 0);
    assert_eq!(list.items, vec![40, 20, 30, 10]);
    assert_eq!(list.revision, rev + 2);
    list.retain(|x| *x != 30);
    assert_eq!(list.items, vec![40, 20, 10]);
    list.fail("boom".to_string());
    assert_eq!(list.error.as_deref(), Some("boom"));
    assert!(!list.loading);
    let before = list.revision;
    list.reset();
    assert!(list.items.is_empty());
    assert_eq!(list.next_offset, Some(0));
    assert_eq!(list.revision, before + 1);
    list.revision = u64::MAX;
    list.reset();
    assert_eq!(list.revision, 0);
}

#[test]
fn cursor_list_reset_and_more() {
    let mut list: CursorList<u8> = CursorList::default();
    assert!(list.can_load_more());
    list.items.push(1);
    list.complete = true;
    assert!(!list.can_load_more());
    list.reset();
    assert!(list.items.is_empty());
    assert!(list.can_load_more());
}

#[test]
fn sparse_list_cached_rows_read_back() {
    let rows: Vec<u32> = (0..250).collect();
    let list = SparseList::from_items(rows.clone());
    assert_eq!(list.pages.len(), 3);
    assert_eq!(list.get_page(2).map(|p| p.len()), Some(50));
    assert!(list.is_complete());
    assert_eq!(list.total, Some(250));
    assert_eq!(list.loaded_count, 250);
    for i in 0..250usize {
        assert_eq!(list.get(i), Some(&(i as u32)));
    }
    assert_eq!(list.to_vec(), rows);
    let seen: Vec<u32> = list.iter().into_iter().copied().collect();
    assert_eq!(seen, rows);
    assert_eq!(list.next_missing_offset(), None);
    assert!(!list.can_load_more());
}

#[test]
fn sparse_list_empty_cache_is_complete() {
    let list: SparseList<u8> = SparseList::from_items(Vec::new());
    assert!(list.pages.is_empty());
    assert!(list.is_complete());
    assert_eq!(list.total, Some(0));
}

#[test]
fn sparse_list_complete_reorder_and_retain_cross_pages() {
    let rows: Vec<u32> = (0..150).collect();
    let mut list = SparseList::from_items(rows);
    list.reorder(0, 150);
    assert_eq!(list.get(149), Some(&0));
    assert_eq!(list.get(99), Some(&100));
    assert_eq!(list.get(0), Some(&1));
    list.retain(|x| *x % 2 == 0);
    assert_eq!(list.total, Some(75));
    assert_eq!(list.pages.len(), 1);
    assert_eq!(list.get(74), Some(&0));
    assert!(list.is_complete());
    let rev = list.revision;
    list.reorder(80, 0);
    assert_eq!(list.revision, rev);
}

#[test]
fn sparse_list_read_after_write_and_other_pages() {
    let mut list: SparseList<u32> = SparseList::new();
    list.insert_page(230, vec![5, 6, 7]);
    assert_eq!(list.pages.len(), 3);
    assert_eq!(list.get(200), Some(&5));
    assert_eq!(list.get(202), Some(&7));
    assert_eq!(list.get(203), None);
    assert_eq!(list.get(0), None);
    assert!(list.loaded_once);
    let mut indices = std::collections::BTreeSet::new();
    indices.insert(2usize);
    assert_eq!(list.loaded_page_indices(), indices);
    assert_eq!(list.get_page(1), None);
    assert_eq!(list.get_page(2), Some(&[5u32, 6, 7][..]));
    list.set_total(201);
    assert_eq!(list.get(201), None);
    assert_eq!(list.get(200), Some(&5));
    assert_eq!(list.find_index(|x| *x == 6), None);
    assert_eq!(list.find_index(|x| *x == 5), Some(200));
}

#[test]
fn sparse_list_absorb_fail_reset() {
    let mut list: SparseList<u32> = SparseList::new();
    list.absorb(100, ItemPage { items: vec![1, 2], total: 102, next: None });
    assert_eq!(list.total, Some(102));
    assert_eq!(list.pages.len(), 2);
    assert_eq!(list.loaded_count, 2);
    assert!(list.is_missing(0));
    list.mark_in_flight(0);
    list.mark_in_flight(7);
    list.fail("down".to_string());
    assert!(!list.loading);
    assert!(!list.is_in_flight(0));
    assert_eq!(list.error.as_deref(), Some("down"));
    let rev = list.revision;
    list.reset();
    assert!(list.pages.is_empty());
    assert_eq!(list.total, None);
    assert_eq!(list.revision, rev + 1);
    assert!(!list.loaded_once);
    assert_eq!(PLAYLIST_PAGE_SIZE, 100);
}

#[test]
fn sparse_list_retain_within_pages_counts_removed() {
    let mut list: SparseList<u32> = SparseList::new();
    list.set_total(300);
    list.insert_page(0, vec![1, 2, 3, 4]);
    list.insert_page(200, vec![5, 6]);
    let rev = list.revision;
    list.retain(|x| *x != 100);
    assert_eq!(list.revision, rev);
    assert_eq!(list.total, Some(300));
    list.retain(|x| *x % 2 == 1);
    assert_eq!(list.loaded_count, 3);
    assert_eq!(list.total, Some(297));
    assert_eq!(list.get(1), Some(&3));
    assert_eq!(list.get(200), Some(&5));
}

#[test]
fn filters_labels_and_groups() {
    assert_eq!(SearchFilter::ALL.len(), 7);
    let labels: Vec<&str> = SearchFilter::ALL.iter().map(|f| f.label()).collect();
    assert_eq!(labels, vec!["All", "Songs", "Artists", "Albums", "Playlists", "Podcasts", "Episodes"]);
    assert_eq!(SearchFilter::default(), SearchFilter::All);
    assert_eq!(DiscographyFilter::Singles.label(), "Singles & EPs");
    assert_eq!(DiscographyFilter::AppearsOn.label(), "Appears On");
    assert_eq!(DiscographyFilter::All.groups(), "album,single,compilation");
    assert_eq!(DiscographyFilter::AppearsOn.groups(), "appears_on");
    assert_eq!(DiscographyFilter::ALL.len(), 4);
    let sort = TableSort { column: SortColumn::Index, ascending: false };
    assert_eq!(sort, sort.clone());
}

#[test]
fn locator_target_and_selection() {
    let idle = PlaylistLocator::default();
    assert!(!idle.is_active());
    assert_eq!(idle.target(), None);
    let locating = PlaylistLocator::Locating {
        playlist_id: "pl".into(),
        target_uri: "spotify:track:t".into(),
        generation: 1,
        locator_generation: 2,
        in_flight: Default::default(),
        checked_pages: Default::default(),
    };
    assert!(locating.is_active());
    assert_eq!(locating.target(), Some(("pl", "spotify:track:t")));
    let selection = RowSelection::default();
    assert!(selection.rows.is_empty());
    assert_eq!(selection.anchor, None);
}

#[test]
fn toast_clone_keeps_its_moment() {
    let toast = Toast { message: "hi".into(), kind: ToastKind::Info, created: Instant::now() };
    let copy = toast.clone();
    assert_eq!(copy.created, toast.created);
    assert_eq!(copy.kind, ToastKind::Info);
}
