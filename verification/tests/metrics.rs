use count_dir::metrics::{CurrentTimings, HistoryEvent, ThreadHistory, ThreadMetrics, TimeSpanHistory, Timer};

#[test]
fn timings_complete_only_when_required_slots_filled() {
    let mut t = CurrentTimings::new();
    assert!(t.try_complete().is_none());
    t.disk_reader_wait.overwrite(1);
    t.disk_access_wait.overwrite(2);
    t.read_processing_time.overwrite(3);
    assert!(t.try_complete().is_none());
    t.disk_read_time.overwrite(4);
    let c = t.try_complete().unwrap();
    assert_eq!(c.disk_reader_wait, 1);
    assert_eq!(c.disk_access_wait, 2);
    assert_eq!(c.read_processing_time, 3);
    assert_eq!(c.disk_read_time, 4);
    // A missing miscellaneous phase counts as zero.
    assert_eq!(c.misc_time, 0);
    // The slots were drained.
    assert!(t.try_complete().is_none());
}

#[test]
fn end_event_fills_matching_slot_once() {
    let mut m = ThreadMetrics::new(4, 0);
    m.end_event(10, HistoryEvent::ReadingDisk);
    m.end_event(99, HistoryEvent::ReadingDisk);
    m.end_event(20, HistoryEvent::WaitingForDiskReader);
    m.end_event(30, HistoryEvent::WaitingForDiskAccess);
    m.end_event(40, HistoryEvent::ProcessingReadResults);
    m.end_event(50, HistoryEvent::Miscellaneous);
    let c = m.curr_timings.try_complete().unwrap();
    // The first recording wins.
    assert_eq!(c.disk_read_time, 10);
    assert_eq!(c.disk_reader_wait, 20);
    assert_eq!(c.disk_access_wait, 30);
    assert_eq!(c.read_processing_time, 40);
    assert_eq!(c.misc_time, 50);
}

#[test]
fn timer_records_elapsed() {
    let mut m = ThreadMetrics::new(4, 0);
    let timer = Timer::new(HistoryEvent::ReadingDisk, 100);
    let timer = timer.end_then_begin(&mut m, HistoryEvent::ProcessingReadResults, 160);
    timer.finished(&mut m, 250);
    m.end_event(5, HistoryEvent::WaitingForDiskReader);
    m.end_event(6, HistoryEvent::WaitingForDiskAccess);
    let c = m.curr_timings.try_complete().unwrap();
    assert_eq!(c.disk_read_time, 60);
    assert_eq!(c.read_processing_time, 90);
}

#[test]
fn update_histories_feeds_windows() {
    let mut m = ThreadMetrics::new(4, 0);
    assert!(!m.update_histories(5));
    m.end_event(100, HistoryEvent::ReadingDisk);
    m.end_event(10, HistoryEvent::WaitingForDiskReader);
    m.end_event(20, HistoryEvent::WaitingForDiskAccess);
    m.end_event(60, HistoryEvent::ProcessingReadResults);
    assert!(m.update_histories(5));
    assert_eq!(m.total_processed, 5);
    // 60 ns of processing over 5 directories: 12 ns per directory.
    assert_eq!(m.avg_processing_rate(), 12);
    assert_eq!(m.avg_disk_read_time(), 60);
    assert_eq!(m.avg_disk_reader_wait(), 10);
    assert_eq!(m.avg_disk_access_wait(), 20);
    assert_eq!(m.avg_process_reads_time(), 100);
    assert_eq!(m.avg_misc_times(), 0);
}

#[test]
fn time_span_history_totals_saturate() {
    let mut h = TimeSpanHistory::new(2);
    h.push(3);
    h.push(4);
    assert_eq!(h.average(), 3); // (3 + 4) / 2
    assert_eq!(h.last(), Some(4));
    h.push(u64::MAX);
    assert_eq!(h.last(), Some(u64::MAX));
}

#[test]
fn thread_history_update_windows() {
    let mut h = ThreadHistory::new(2);
    assert_eq!(h.get_last_rate(), None);
    let c = count_dir::metrics::CompleteTimings {
        disk_reader_wait: 1,
        disk_access_wait: 2,
        disk_read_time: 3,
        misc_time: 4,
        read_processing_time: 10,
    };
    h.update(2, c);
    assert_eq!(h.get_last_rate(), Some(5));
    assert_eq!(h.get_avg_disk_reader_wait(), 1);
    assert_eq!(h.get_avg_misc_time(), 4);
    assert_eq!(h.get_avg_disk_read_time(), 10);
    assert_eq!(h.get_avg_process_reads_time(), 3);
}
