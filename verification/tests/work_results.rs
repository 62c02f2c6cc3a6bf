use count_dir::work::{process_entries, EntryOutcome, ErrorDir, WorkResult};

#[test]
fn entries_split_into_tasks_and_errors() {
    let entries = vec![
        EntryOutcome::Dir { path: String::from("a") },
        EntryOutcome::NonDir { path: String::from("b.txt") },
        EntryOutcome::Error { path: String::from("c"), err: String::from("denied") },
        EntryOutcome::Dir { path: String::from("d") },
    ];
    let (tasks, errors) = process_entries(entries);
    assert_eq!(tasks, vec![String::from("a"), String::from("d")]);
    assert_eq!(errors.len(), 1);
    assert_eq!(errors[0].path, "c");
    assert_eq!(errors[0].err, "denied");
}

#[test]
fn one_error_never_aborts_the_batch() {
    let entries = vec![
        EntryOutcome::Error { path: String::from("x"), err: String::from("vanished") },
        EntryOutcome::Dir { path: String::from("y") },
    ];
    let (tasks, errors) = process_entries(entries);
    assert_eq!(tasks, vec![String::from("y")]);
    assert_eq!(errors.len(), 1);
}

#[test]
fn summarize_counts() {
    let errors = vec![ErrorDir::new(String::from("p"), String::from("e"))];
    let discovered = vec![String::from("q"), String::from("r")];
    let s = WorkResult::summarize(&errors, &discovered);
    assert_eq!(s.errors, 1);
    assert_eq!(s.discovered, 2);
}

#[test]
fn merge_accumulates() {
    let a = WorkResult {
        avg_t_order: 1,
        avg_t_waiting: 2,
        avg_processing_rate: 3,
        newly_processed: 10,
        max_dir_size: 100,
    };
    let b = WorkResult {
        avg_t_order: 4,
        avg_t_waiting: 5,
        avg_processing_rate: 6,
        newly_processed: 7,
        max_dir_size: 50,
    };
    let m = a.merge(b);
    assert_eq!(m.avg_t_order, 4);
    assert_eq!(m.avg_t_waiting, 5);
    assert_eq!(m.avg_processing_rate, 6);
    assert_eq!(m.newly_processed, 17);
    assert_eq!(m.max_dir_size, 100);
}

#[test]
fn default_work_result_is_zero() {
    let d = WorkResult::default();
    assert_eq!(d.newly_processed, 0);
    assert_eq!(d.max_dir_size, 0);
    assert_eq!(d.avg_t_order, 0);
}
