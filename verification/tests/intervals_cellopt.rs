use count_dir::cellopt::{CellOpt, ValueError};
use count_dir::intervals::{
    disjoint_assuming_left_right, non_empty_disjoint, End, Interval, NonEmptyInterval, Start,
};

#[test]
fn end_lt_start() {
    assert!(End(Some(3)).lt_start(&Start(3)));
    assert!(End(Some(3)).lt_start(&Start(5)));
    assert!(!End(Some(4)).lt_start(&Start(3)));
    // An unbounded end is not below any start.
    assert!(!End(None).lt_start(&Start(1000)));
}

#[test]
fn disjoint_intervals() {
    let a = NonEmptyInterval::new(Start(0), End(Some(4)));
    let b = NonEmptyInterval::new(Start(4), End(Some(7)));
    assert!(non_empty_disjoint(&a, &b));
    assert!(non_empty_disjoint(&b, &a));
    assert!(disjoint_assuming_left_right(&a, &b));
}

#[test]
fn overlapping_intervals() {
    let a = NonEmptyInterval::new(Start(0), End(Some(5)));
    let b = NonEmptyInterval::new(Start(4), End(Some(7)));
    assert!(!non_empty_disjoint(&a, &b));
    let unbounded = NonEmptyInterval::new(Start(2), End(None));
    assert!(!non_empty_disjoint(&a, &unbounded));
}

#[test]
fn same_start_never_disjoint() {
    let a = NonEmptyInterval::new(Start(3), End(Some(5)));
    let b = NonEmptyInterval::new(Start(3), End(Some(9)));
    assert!(!non_empty_disjoint(&a, &b));
}

#[test]
fn empty_interval_reported() {
    let e = Interval::Empty;
    let n = Interval::NonEmpty(NonEmptyInterval::new(Start(0), End(Some(1))));
    assert!(e.is_empty());
    assert!(!n.is_empty());
    // An empty interval is never reported disjoint: no claimed range.
    assert!(!e.is_disjoint(&n));
    assert!(!n.is_disjoint(&e));
    let m = Interval::NonEmpty(NonEmptyInterval::new(Start(5), End(Some(6))));
    assert!(n.is_disjoint(&m));
}

#[test]
fn cellopt_take_and_insert() {
    let mut c: CellOpt<u32> = CellOpt::new(5);
    assert!(c.is_occupied());
    assert_eq!(c.take(), Ok(5));
    assert!(!c.is_occupied());
    assert_eq!(c.take(), Err(ValueError::Empty));
    assert!(c.insert(7).is_ok());
    let rejected = c.insert(9).unwrap_err();
    assert_eq!(rejected.to_insert, 9);
    assert_eq!(rejected.err, ValueError::Occupied);
    assert_eq!(c.force_take(), 7);
}

#[test]
fn cellopt_overwrite_and_default() {
    let mut c: CellOpt<u32> = CellOpt::default();
    assert!(!c.is_occupied());
    c.overwrite(1);
    c.overwrite(2);
    assert_eq!(c.force_take(), 2);
}

#[test]
fn cellopt_apply_functions() {
    let c: CellOpt<u32> = CellOpt::new(6);
    assert_eq!(c.apply_then_restore(|v| v + 1), Some(7));
    assert!(c.is_occupied());
    let empty: CellOpt<u32> = CellOpt::default();
    assert_eq!(empty.apply_then_restore(|v| v + 1), None);
    let mut c = c;
    c.apply_and_update(|v| v * 2);
    assert_eq!(c.force_take(), 12);
}
