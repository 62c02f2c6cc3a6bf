use count_dir::history::{AvgInfo, AvgInfoBundle, AvgInfoSummary, AvgInfoWithSummaries, HistData, HistoryVec};

const SECOND: u64 = 1_000_000_000;

#[test]
fn rolling_average_evicts_oldest() {
    // capacity 3: pushing durations 1s, 2s, 3s, 4s leaves the window
    // [2s, 3s, 4s] with mean 3s.
    let mut h = HistoryVec::new(3);
    h.push(SECOND);
    h.push(2 * SECOND);
    h.push(3 * SECOND);
    h.push(4 * SECOND);
    assert_eq!(h.average(), 3 * SECOND);
    assert_eq!(h.samples(), vec![2 * SECOND, 3 * SECOND, 4 * SECOND]);
}

#[test]
fn average_is_exact_truncated_mean() {
    let mut h = HistoryVec::new(4);
    assert_eq!(h.average(), 0);
    h.push(1);
    h.push(2);
    assert_eq!(h.average(), 1); // 3 / 2, rounded toward zero
    h.push(3);
    assert_eq!(h.average(), 2); // 6 / 3
}

#[test]
fn last_reports_most_recent() {
    let mut h = HistoryVec::new(2);
    assert_eq!(h.last(), None);
    h.push(7);
    assert_eq!(h.last(), Some(7));
    h.push(9);
    h.push(11);
    assert_eq!(h.last(), Some(11));
    assert_eq!(h.len(), 2);
}

#[test]
fn hist_data_signed_difference() {
    let up = HistData::difference_of(10, 4);
    assert!(up.is_positive());
    assert_eq!(up.absolute(), 6);
    let down = HistData::difference_of(4, 10);
    assert!(!down.is_positive());
    assert_eq!(down.absolute(), 6);
}

#[test]
fn hist_data_div_usize() {
    let d = HistData::from_absolute(9);
    let q = d.div_usize(2).unwrap();
    assert!(q.is_positive());
    assert_eq!(q.absolute(), 4);
    assert!(d.div_usize(0).is_err());
}

#[test]
fn avg_info_update_returns_last() {
    let mut a = AvgInfo::default();
    let last = a.update(5);
    assert_eq!(last.data, 0);
    assert_eq!(a.data, 5);
    assert!(a.delta.is_positive());
    assert_eq!(a.delta.absolute(), 5);
    let last = a.update(2);
    assert_eq!(last.data, 5);
    assert!(!a.delta.is_positive());
    assert_eq!(a.delta.absolute(), 3);
}

#[test]
fn summary_of_known_values() {
    let s = AvgInfoSummary::summarize(&vec![3, 9, 1, 9, 4]);
    assert_eq!(s.max, Some(9));
    assert_eq!(s.min, Some(1));
    assert_eq!(s.total, 26);
}

#[test]
fn summary_of_empty_is_absent() {
    let s = AvgInfoSummary::summarize(&vec![]);
    assert_eq!(s.max, None);
    assert_eq!(s.min, None);
    assert_eq!(s.total, 0);
}

#[test]
fn bundle_summaries() {
    let mut b1 = AvgInfoBundle::default();
    b1.update(10, 100, 1000);
    let mut b2 = AvgInfoBundle::default();
    b2.update(30, 50, 2000);
    let s = AvgInfoWithSummaries::from_bundles(&vec![b1, b2]);
    assert_eq!(s.summary_processing_rates.total, 40);
    assert_eq!(s.summary_processing_rates.max, Some(30));
    assert_eq!(s.summary_task_times.total, 150);
    assert_eq!(s.summary_idle_times.max, Some(2000));
}
