use count_dir::scheduler::{
    count_idle, fair_share, get_surplus_of_size, is_run_finished, max_in_flight,
    next_thread_step, redistribute_decision, requested_share_size, total_in_flight,
    RedistributeResult, Status, ThreadStep,
};
use count_dir::workbuf::{Source, WorkSlice};

#[test]
fn totals_and_fair_share() {
    let in_flight = vec![4usize, 0, 8];
    assert_eq!(total_in_flight(&in_flight), 12);
    assert_eq!(max_in_flight(&in_flight), 8);
    assert_eq!(fair_share(&in_flight), 4);
}

#[test]
fn idle_counting() {
    let statuses = vec![Status::Idle, Status::Busy, Status::Idle];
    assert_eq!(count_idle(&statuses), 2);
}

#[test]
fn run_finishes_only_all_idle_nothing_pending() {
    let statuses = vec![Status::Idle, Status::Idle];
    assert!(is_run_finished(&statuses, &vec![0, 0], &vec![0, 0]));
    assert!(!is_run_finished(&statuses, &vec![0, 1], &vec![0, 0]));
    assert!(!is_run_finished(&statuses, &vec![0, 0], &vec![2, 0]));
    let busy = vec![Status::Idle, Status::Busy];
    assert!(!is_run_finished(&busy, &vec![0, 0], &vec![0, 0]));
}

#[test]
fn requested_share_is_rate_times_time() {
    // 2 directories per second for 1.5 s of task time: 3 directories.
    assert_eq!(requested_share_size(2, 1_500_000_000), 3);
    // Never ask for less than one directory.
    assert_eq!(requested_share_size(0, 1_000_000_000), 1);
    assert_eq!(requested_share_size(5, 0), 1);
}

#[test]
fn redistribute_cases() {
    assert_eq!(
        redistribute_decision(&vec![0, 0], 0),
        RedistributeResult::NoPathsInFlight
    );
    assert_eq!(
        redistribute_decision(&vec![3, 3], 5),
        RedistributeResult::NoDistributionRequired
    );
    assert_eq!(
        redistribute_decision(&vec![6, 0], 4),
        RedistributeResult::SurplusesDistributed
    );
    assert_eq!(
        redistribute_decision(&vec![6, 0], 0),
        RedistributeResult::SurplusRequestsSent
    );
}

#[test]
fn surplus_carving_conserves_work() {
    // Two surplus slices of 3 and 4 units; carving 5 takes all of the
    // first and two of the second, leaving two units behind.
    let surplus = vec![
        WorkSlice::new(Source::Shared, 0, 3),
        WorkSlice::new(Source::Shared, 10, 14),
    ];
    let (taken, left) = get_surplus_of_size(surplus, 5);
    let taken_total: usize = taken.iter().map(|s| s.end - s.cursor).sum();
    let left_total: usize = left.iter().map(|s| s.end - s.cursor).sum();
    assert_eq!(taken_total, 5);
    assert_eq!(left_total, 2);
    assert_eq!(taken.len(), 2);
    assert_eq!(taken[0].start, 0);
    assert_eq!(taken[0].end, 3);
    assert_eq!(taken[1].start, 10);
    assert_eq!(taken[1].end, 12);
    assert_eq!(left[0].start, 12);
    assert_eq!(left[0].end, 14);
}

#[test]
fn surplus_carving_short_supply() {
    let surplus = vec![WorkSlice::new(Source::Shared, 0, 2)];
    let (taken, left) = get_surplus_of_size(surplus, 9);
    let taken_total: usize = taken.iter().map(|s| s.end - s.cursor).sum();
    assert_eq!(taken_total, 2);
    assert!(left.is_empty());
}

#[test]
fn total_surplus_sums_remaining_work() {
    let surplus = vec![
        WorkSlice::new(Source::Shared, 0, 3),
        WorkSlice::new(Source::Shared, 5, 9),
    ];
    assert_eq!(count_dir::scheduler::get_total_surplus(&surplus), 7);
    assert_eq!(count_dir::scheduler::get_total_surplus(&vec![]), 0);
}

#[test]
fn overall_rate_rounds_down() {
    assert_eq!(count_dir::scheduler::overall_rate(10, 3), 3);
    assert_eq!(count_dir::scheduler::overall_rate(10, 0), 0);
    assert_eq!(count_dir::scheduler::overall_rate(0, 5), 0);
}

#[test]
fn worker_step_decision() {
    assert_eq!(
        next_thread_step(5, 64, 2, 1_500_000_000),
        (Status::Busy, ThreadStep::ClaimLocal { chunk: 64 })
    );
    assert_eq!(
        next_thread_step(0, 64, 2, 1_500_000_000),
        (Status::Idle, ThreadStep::RequestShared { share: 3 })
    );
}
