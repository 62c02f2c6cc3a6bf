use count_dir::pathidx::{
    format_opt_secs, normalize, FileType, MetaStore, PathComponent, PathIndexBuilder, PathMeta,
    SplitPath, TimeString,
};

#[test]
fn normalize_resolves_dots() {
    let components = vec![
        PathComponent::Prefix(String::from("C:")),
        PathComponent::RootDir,
        PathComponent::Normal(String::from("a")),
        PathComponent::CurDir,
        PathComponent::Normal(String::from("b")),
        PathComponent::ParentDir,
        PathComponent::Normal(String::from("c")),
    ];
    let r = normalize(components);
    assert_eq!(
        r,
        vec![
            PathComponent::Prefix(String::from("C:")),
            PathComponent::RootDir,
            PathComponent::Normal(String::from("a")),
            PathComponent::Normal(String::from("c")),
        ]
    );
}

#[test]
fn normalize_stops_popping_at_root() {
    let components = vec![
        PathComponent::RootDir,
        PathComponent::ParentDir,
        PathComponent::ParentDir,
        PathComponent::Normal(String::from("x")),
    ];
    let r = normalize(components);
    assert_eq!(
        r,
        vec![PathComponent::RootDir, PathComponent::Normal(String::from("x"))]
    );
}

#[test]
fn file_type_from_flags() {
    assert_eq!(FileType::from_flags(true, false, false), FileType::Directory);
    assert_eq!(FileType::from_flags(false, true, false), FileType::File);
    assert_eq!(FileType::from_flags(false, false, true), FileType::SymLink);
    assert_eq!(FileType::from_flags(false, false, false), FileType::Unknown);
    // Directory wins over other flags.
    assert_eq!(FileType::from_flags(true, true, true), FileType::Directory);
}

#[test]
fn time_string_formats_epoch() {
    let t = TimeString::from_epoch_secs(0);
    assert_eq!(t.text(), "1970-Jan-01 00:00");
    let t = TimeString::from_epoch_secs(1431648000);
    assert_eq!(t.text(), "2015-May-15 00:00");
    let t = TimeString::from_epoch_secs(951827696);
    assert_eq!(t.text(), "2000-Feb-29 12:34");
}

#[test]
fn out_of_range_timestamps_absent() {
    assert!(format_opt_secs(None).is_none());
    assert!(format_opt_secs(Some(-1)).is_none());
    assert!(format_opt_secs(Some(253_402_300_800)).is_none());
    assert!(format_opt_secs(Some(253_402_300_799)).is_some());
}

#[test]
fn path_meta_records_flags_and_times() {
    let m = PathMeta::new(true, false, false, Some(0), None, Some(-5));
    assert_eq!(m.file_type, FileType::Directory);
    assert_eq!(m.modified.unwrap().text(), "1970-Jan-01 00:00");
    assert!(m.accessed.is_none());
    assert!(m.created.is_none());
}

#[test]
fn meta_store_hands_out_fresh_slots() {
    let mut s = MetaStore::new();
    let a = s.insert(None);
    let b = s.insert(Some(PathMeta::new(false, true, false, None, None, None)));
    assert_ne!(a, b);
    assert_eq!(s.len(), 2);
    let c = s.generate_index();
    assert_ne!(c, a);
    assert_ne!(c, b);
}

#[test]
fn builder_collects_paths() {
    let mut b = PathIndexBuilder::new();
    b.insert_path(SplitPath::new(
        String::from("C:/a"),
        vec![String::from("C:"), String::from("a")],
    ));
    b.insert_path(SplitPath::new(String::from("C:/b"), vec![]));
    assert_eq!(b.paths.len(), 2);
    assert_eq!(b.paths[0].path, "C:/a");
    assert!(b.paths[0].fst_outputs.is_none());
}
