use lemmy_ui_core::infinite_scroll::{InfiniteScrollAccumulator, ResourceStatus};
use lemmy_ui_core::listing::SortType;
use lemmy_ui_core::paging::PageKey;

fn key(offset: usize, cursor: Option<&str>) -> PageKey {
    PageKey { offset, cursor: cursor.map(|c| c.to_string()) }
}

#[test]
fn two_triggers_issue_one_request() {
    let mut acc: InfiniteScrollAccumulator<Vec<u32>> = InfiniteScrollAccumulator::new(SortType::Active, 10);
    let first = acc.trigger();
    let second = acc.trigger();
    assert_eq!(first, Some(key(0, None)));
    assert_eq!(second, None);
    assert_eq!(acc.entries.len(), 1);
    assert_eq!(acc.entries[&0].status, ResourceStatus::Loading);
}

#[test]
fn success_records_next_cursor() {
    let mut acc: InfiniteScrollAccumulator<Vec<u32>> = InfiniteScrollAccumulator::new(SortType::Hot, 10);
    let req = acc.trigger().unwrap();
    acc.on_success(req, vec![1, 2, 3], Some("n1".to_string()));
    assert_eq!(acc.entries[&0].status, ResourceStatus::Loaded);
    assert_eq!(acc.entries[&0].payload, Some(vec![1, 2, 3]));
    assert_eq!(acc.next, key(10, Some("n1")));
    let req2 = acc.trigger().unwrap();
    assert_eq!(req2, key(10, Some("n1")));
    assert_eq!(acc.entries.len(), 2);
}

#[test]
fn failure_then_retry_reuses_cursor() {
    let mut acc: InfiniteScrollAccumulator<u8> = InfiniteScrollAccumulator::new(SortType::New, 10);
    let r0 = acc.trigger().unwrap();
    acc.on_success(r0, 1, Some("c".to_string()));
    let req = acc.trigger().unwrap();
    acc.on_failure(req);
    assert_eq!(acc.entries[&10].status, ResourceStatus::Failed);
    assert_eq!(acc.trigger(), None);
    assert_eq!(acc.retry(0), None);
    assert_eq!(acc.retry(20), None);
    let again = acc.retry(10);
    assert_eq!(again, Some(key(10, Some("c"))));
    assert_eq!(acc.entries[&10].status, ResourceStatus::Loading);
    assert_eq!(acc.retry(10), None);
    acc.on_success(again.unwrap(), 2, None);
    assert_eq!(acc.entries[&10].payload, Some(2));
    assert_eq!(acc.next, key(20, None));
}

#[test]
fn sort_change_clears_everything() {
    let mut acc: InfiniteScrollAccumulator<u8> = InfiniteScrollAccumulator::new(SortType::Active, 10);
    let r0 = acc.trigger().unwrap();
    acc.on_success(r0, 1, Some("c".to_string()));
    acc.trigger();
    acc.change_sort(SortType::Scaled);
    assert!(acc.entries.is_empty());
    assert_eq!(acc.next, key(0, None));
    assert_eq!(acc.sort, SortType::Scaled);
    assert_eq!(acc.trigger(), Some(key(0, None)));
}

#[test]
fn reset_keeps_sort() {
    let mut acc: InfiniteScrollAccumulator<u8> = InfiniteScrollAccumulator::new(SortType::Hot, 20);
    let r0 = acc.trigger().unwrap();
    acc.on_success(r0, 1, Some("c".to_string()));
    acc.reset();
    assert!(acc.entries.is_empty());
    assert_eq!(acc.next, key(0, None));
    assert_eq!(acc.sort, SortType::Hot);
    assert!(!acc.has_entry(0));
}
