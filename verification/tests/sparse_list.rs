use fastpotify::sparse_list::SparseList;

#[test]
fn sparse_list_basic_and_arbitrary_page_insertion() {
    let mut list: SparseList<String> = SparseList::new();
    list.set_total(250);
    assert_eq!(list.pages.len(), 3);
    assert!(!list.is_complete());
    assert_eq!(list.get(0), None);
    assert_eq!(list.get(150), None);

    // Insert page 1 (items 100..200)
    let page_1_items: Vec<String> = (100..200).map(|i| format!("item_{i}")).collect();
    list.insert_page(100, page_1_items);
    assert_eq!(list.loaded_count, 100);
    assert!(!list.is_complete());
    assert_eq!(list.get(50), None);
    assert_eq!(list.get(100), Some(&"item_100".to_string()));
    assert_eq!(list.get(199), Some(&"item_199".to_string()));
    assert_eq!(list.get(200), None);

    // Insert page 0 (items 0..100)
    let page_0_items: Vec<String> = (0..100).map(|i| format!("item_{i}")).collect();
    list.insert_page(0, page_0_items);
    assert_eq!(list.loaded_count, 200);
    assert!(!list.is_complete());

    // Insert page 2 (items 200..250)
    let page_2_items: Vec<String> = (200..250).map(|i| format!("item_{i}")).collect();
    list.insert_page(200, page_2_items);
    assert_eq!(list.loaded_count, 250);
    assert!(list.is_complete());
    assert_eq!(list.get(249), Some(&"item_249".to_string()));
    assert_eq!(list.get(250), None);
}

#[test]
fn sparse_list_duplicate_page_insertion_does_not_double_count() {
    let mut list: SparseList<i32> = SparseList::new();
    list.set_total(100);
    list.insert_page(0, vec![1, 2, 3]);
    assert_eq!(list.loaded_count, 3);

    list.insert_page(0, vec![4, 5, 6, 7]);
    assert_eq!(list.loaded_count, 4);
}

#[test]
fn sparse_list_in_flight_and_concurrency_limit() {
    let mut list: SparseList<i32> = SparseList::new();
    list.set_total(500);

    assert!(list.can_request_more());
    assert!(!list.is_in_flight(0));
    assert!(list.is_missing(0));

    list.mark_in_flight(0);
    assert!(list.is_in_flight(0));
    assert!(list.loading);
    assert!(list.can_request_more());

    list.mark_in_flight(1);
    assert!(list.is_in_flight(1));
    assert!(!list.can_request_more());

    list.fail_page(0, "Network error".into());
    assert!(!list.is_in_flight(0));
    assert!(list.can_request_more());
    assert!(list.loading);
    assert_eq!(list.error.as_deref(), Some("Network error"));

    list.insert_page(100, vec![42]);
    assert!(!list.is_in_flight(1));
    assert!(!list.loading);
}

#[test]
fn sparse_list_next_missing_offset() {
    let mut list: SparseList<i32> = SparseList::new();
    list.set_total(300);

    assert_eq!(list.next_missing_offset(), Some(0));
    list.mark_in_flight(0);
    assert_eq!(list.next_missing_offset(), Some(100));
    list.insert_page(100, (0..100).collect());
    assert_eq!(list.next_missing_offset(), Some(200));
}

#[test]
fn sparse_list_find_index() {
    let mut list: SparseList<String> = SparseList::new();
    list.set_total(300);
    list.insert_page(100, vec!["alpha".into(), "beta".into(), "gamma".into()]);

    assert_eq!(list.find_index(|s| s == "beta"), Some(101));
    assert_eq!(list.find_index(|s| s == "delta"), None);
}

#[test]
fn sparse_list_set_total_shrinking() {
    let mut list: SparseList<i32> = SparseList::new();
    list.set_total(300);
    list.insert_page(0, (0..100).collect());
    list.insert_page(200, (0..50).collect());
    assert_eq!(list.loaded_count, 150);

    list.set_total(100);
    assert_eq!(list.pages.len(), 1);
    assert_eq!(list.loaded_count, 100);
}

#[test]
fn sparse_list_retain_preserves_unloaded_pages() {
    let mut list: SparseList<String> = SparseList::new();
    list.set_total(500);
    list.insert_page(0, vec!["keep".into(), "drop".into(), "keep2".into()]);
    list.insert_page(400, vec!["p4_keep".into(), "drop".into()]);

    assert_eq!(list.pages.len(), 5);
    assert!(list.is_missing(1));
    assert!(list.is_missing(2));
    assert!(list.is_missing(3));

    // Retain on sparse list must NOT collapse or erase missing pages!
    list.retain(|s| s != "drop");

    assert_eq!(list.pages.len(), 5);
    assert!(list.is_missing(1));
    assert!(list.is_missing(2));
    assert!(list.is_missing(3));
    assert_eq!(list.get(0), Some(&"keep".to_string()));
    assert_eq!(list.get(1), Some(&"keep2".to_string()));
    assert_eq!(list.get(400), Some(&"p4_keep".to_string()));
    assert_eq!(list.total, Some(498));
}

#[test]
fn sparse_list_reorder_within_page_preserves_unloaded_pages() {
    let mut list: SparseList<String> = SparseList::new();
    list.set_total(500);
    list.insert_page(0, vec!["a".into(), "b".into(), "c".into()]);
    list.insert_page(300, vec!["p3".into()]);

    assert_eq!(list.pages.len(), 5);
    assert!(list.is_missing(1));
    assert!(list.is_missing(2));

    // Reorder within page 0: move 'a' (row 0) to insert_before 3
    list.reorder(0, 3);

    assert_eq!(list.pages.len(), 5);
    assert!(list.is_missing(1));
    assert!(list.is_missing(2));
    assert_eq!(list.get(0), Some(&"b".to_string()));
    assert_eq!(list.get(1), Some(&"c".to_string()));
    assert_eq!(list.get(2), Some(&"a".to_string()));
    assert_eq!(list.get(300), Some(&"p3".to_string()));
}
