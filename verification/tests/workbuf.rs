use count_dir::workbuf::{Source, WorkBuf, WorkSlice};

fn seed_paths(n: usize) -> Vec<String> {
    (0..n).map(|i| format!("dir{}", i)).collect()
}

#[test]
fn claims_are_adjacent_ranges() {
    // Ten paths: a local claim of 4 takes [0, 4), a sharing claim of 3
    // takes [4, 7), and 3 remain pending.
    let mut buf: WorkBuf<String> = WorkBuf::new(seed_paths(10));
    let local = buf.get_work_for_local(4);
    assert_eq!(local.start(), 0);
    assert_eq!(local.end(), 4);
    assert_eq!(local.source(), Source::Local);
    let shared = buf.get_work_for_sharing(3);
    assert_eq!(shared.start(), 4);
    assert_eq!(shared.end(), 7);
    assert_eq!(shared.source(), Source::Shared);
    assert_eq!(buf.total_pending(), 3);
}

#[test]
fn claim_caps_at_available() {
    let mut buf: WorkBuf<String> = WorkBuf::new(seed_paths(2));
    let s = buf.get_work_for_local(5);
    assert_eq!(s.start(), 0);
    assert_eq!(s.end(), 2);
    assert_eq!(buf.total_pending(), 0);
    let empty = buf.get_work_for_local(1);
    assert_eq!(empty.len(), 0);
}

#[test]
fn extend_keeps_claims() {
    let mut buf: WorkBuf<String> = WorkBuf::new(seed_paths(3));
    let first = buf.get_work_for_local(2);
    buf.extend(vec![String::from("x"), String::from("y")]);
    assert_eq!(buf.len(), 5);
    assert_eq!(buf.pending_from(), 2);
    assert_eq!(buf.total_pending(), 3);
    let second = buf.get_work_for_local(10);
    assert_eq!(first.end(), second.start());
    assert_eq!(second.end(), 5);
}

#[test]
fn slice_consumes_one_index_at_a_time() {
    let mut s = WorkSlice::new(Source::Local, 2, 4);
    assert!(!s.is_exhausted());
    assert_eq!(s.remaining(), 2);
    assert_eq!(s.next_index(), Some(2));
    assert_eq!(s.next_index(), Some(3));
    assert_eq!(s.next_index(), None);
    assert!(s.is_exhausted());
}

#[test]
fn split_partitions_range() {
    let s = WorkSlice::new(Source::Shared, 0, 5);
    let (give, rest) = s.split(2);
    assert_eq!(give.start(), 0);
    assert_eq!(give.end(), 2);
    let rest = rest.unwrap();
    assert_eq!(rest.start(), 2);
    assert_eq!(rest.end(), 5);
    assert_eq!(rest.source(), Source::Shared);
}

#[test]
fn split_whole_returns_no_remainder() {
    let s = WorkSlice::new(Source::Local, 1, 4);
    let (give, rest) = s.split(3);
    assert_eq!(give.start(), 1);
    assert_eq!(give.end(), 4);
    assert!(rest.is_none());
    let (give, rest) = give.split(10);
    assert_eq!(give.len(), 3);
    assert!(rest.is_none());
}

#[test]
fn buffer_hands_out_items_by_index() {
    let buf: WorkBuf<String> = WorkBuf::new(seed_paths(3));
    assert_eq!(buf.get(0), "dir0");
    assert_eq!(buf.get(2), "dir2");
}
