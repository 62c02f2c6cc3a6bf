use count_dir::diskreg::{pick_index, pick_max_pressure, Disk, DiskRegistry, TaskPacket};
use count_dir::work::ErrorDir;
use count_dir::workbuf::Source;

#[test]
fn disk_pressure_is_pending_count() {
    let mut d = Disk::new(2, vec![String::from("a"), String::from("b")]);
    assert_eq!(d.pressure(), 2);
    let s = d.get_tasks(1).unwrap();
    assert_eq!(s.start(), 0);
    assert_eq!(s.end(), 1);
    assert_eq!(s.source(), Source::Local);
    assert_eq!(d.pressure(), 1);
    d.push(vec![String::from("c")]);
    assert_eq!(d.pressure(), 2);
}

#[test]
fn disk_with_nothing_pending_gives_no_tasks() {
    let mut d = Disk::new(0, vec![]);
    assert!(d.get_tasks(4).is_none());
    d.push_task(String::from("p"));
    assert!(d.get_tasks(0).is_none());
    let s = d.get_tasks(4).unwrap();
    assert_eq!(s.len(), 1);
}

#[test]
fn disk_records_results() {
    let mut d = Disk::new(1, vec![String::from("seed")]);
    d.record_results(
        vec![ErrorDir::new(String::from("bad"), String::from("denied"))],
        vec![String::from("new1"), String::from("new2")],
    );
    assert_eq!(d.pressure(), 3);
    assert_eq!(d.task_at(1), "new1");
}

#[test]
fn registry_groups_seeds_by_disk() {
    let seeds = vec![
        (1u8, String::from("c-root")),
        (2u8, String::from("d-root")),
        (1u8, String::from("c-other")),
    ];
    let r = DiskRegistry::group_seeds(seeds);
    assert_eq!(r.len(), 2);
    let c = r.get(1).unwrap();
    let d = r.get(2).unwrap();
    assert_eq!(r.disk_at(c).pressure(), 2);
    assert_eq!(r.disk_at(d).pressure(), 1);
    assert!(r.get(9).is_none());
    assert_eq!(r.disk_at(c).task_at(0), "c-root");
    assert_eq!(r.disk_at(c).task_at(1), "c-other");
}

#[test]
fn pressures_by_position() {
    let seeds = vec![(1u8, String::from("a")), (2u8, String::from("b"))];
    let mut r = DiskRegistry::group_seeds(seeds);
    let i = r.get(1).unwrap();
    r.disk_at_mut(i).push(vec![String::from("x"), String::from("y")]);
    let p = r.pressures();
    assert_eq!(p.len(), 2);
    assert_eq!(p.iter().sum::<usize>(), 4);
    assert_eq!(p.iter().copied().max(), Some(3));
}

#[test]
fn max_pressure_pick_lands_on_maximum() {
    let pressures = vec![1usize, 7, 3, 7, 0];
    for _ in 0..20 {
        let i = pick_max_pressure(&pressures).unwrap();
        assert_eq!(pressures[i], 7);
    }
    assert!(pick_max_pressure(&vec![]).is_none());
}

#[test]
fn random_index_is_in_range() {
    assert_eq!(pick_index(1), 0);
    for n in [2usize, 3, 10] {
        for _ in 0..20 {
            assert!(pick_index(n) < n);
        }
    }
}

#[test]
fn task_packet_carries_claim() {
    let mut d = Disk::new(3, vec![String::from("a"), String::from("b")]);
    let s = d.get_tasks(2).unwrap();
    let p = TaskPacket::new(3, s);
    assert_eq!(p.disk, 3);
    assert_eq!(p.tasks.len(), 2);
}

#[test]
fn disks_by_pressure_sorts_descending() {
    let seeds = vec![
        (1u8, String::from("a")),
        (2u8, String::from("b")),
        (3u8, String::from("c")),
    ];
    let mut r = count_dir::diskreg::DiskRegistry::group_seeds(seeds);
    let i2 = r.get(2).unwrap();
    r.disk_at_mut(i2).push(vec![String::from("x"), String::from("y")]);
    let order = r.disks_by_pressure();
    assert_eq!(order.len(), 3);
    assert_eq!(order[0], (3, i2));
    assert_eq!(order[0].0, 3);
    assert_eq!(order[1].0, 1);
    assert_eq!(order[2].0, 1);
}

#[test]
fn ticket_counter() {
    let mut t = count_dir::diskreg::TaskCountVar::new();
    assert!(!t.wait_for_ticket());
    t.notify_all();
    t.notify_all();
    assert!(t.wait_for_ticket());
    assert!(t.wait_for_ticket());
    assert!(!t.wait_for_ticket());
}

#[test]
fn readers_claim_from_busiest_disk() {
    let seeds = vec![
        (1u8, String::from("a")),
        (2u8, String::from("b")),
        (2u8, String::from("c")),
    ];
    let mut r = count_dir::diskreg::DiskRegistry::group_seeds(seeds);
    let packet = r.get_readers_for(64).unwrap();
    assert_eq!(packet.disk, 2);
    assert_eq!(packet.tasks.len(), 2);
    // One path still pending on the other disk.
    let packet = r.get_readers_for(64).unwrap();
    assert_eq!(packet.disk, 1);
    assert_eq!(packet.tasks.len(), 1);
    assert!(r.get_readers_for(64).is_none());
}
