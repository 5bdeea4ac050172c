use abz::archive::Archive;
use abz::convert::{entry_mode, total_size, ProcessRead, DEFAULT_MODE};
use abz::format::Format;
use abz::scan::{collect_archives, walk_step, WalkStep};
use abz::status::Status;
use std::path::PathBuf;

#[test]
fn mode_falls_back_to_default() {
    assert_eq!(DEFAULT_MODE, 0o644);
    assert_eq!(entry_mode(None), 0o644);
    assert_eq!(entry_mode(Some(0o755)), 0o755);
    assert_eq!(entry_mode(Some(0)), 0);
}

#[test]
fn total_size_sums_or_overflows() {
    assert_eq!(total_size(&vec![]), Some(0));
    assert_eq!(total_size(&vec![1, 2, 3]), Some(6));
    assert_eq!(total_size(&vec![u64::MAX, 0]), Some(u64::MAX));
    assert_eq!(total_size(&vec![u64::MAX, 1]), None);
    assert_eq!(total_size(&vec![u64::MAX / 2 + 1, u64::MAX / 2 + 1, 0]), None);
}

#[test]
fn process_read_holds_its_parts() {
    let p = ProcessRead::new(vec![1u8, 2, 3], 7u32);
    assert_eq!(p.read, vec![1, 2, 3]);
    assert_eq!(p.f, 7);
}

#[test]
fn walk_descends_only_when_recursive() {
    assert_eq!(walk_step(true, true), WalkStep::Descend);
    assert_eq!(walk_step(true, false), WalkStep::Keep);
    assert_eq!(walk_step(false, true), WalkStep::Keep);
    assert_eq!(walk_step(false, false), WalkStep::Keep);
}

fn archive(name: &str) -> Archive {
    Archive { path: PathBuf::from(name), format: Format::Zip, size: 1, status: Status::Pending }
}

#[test]
fn collect_keeps_found_in_order() {
    let found: Vec<Result<Option<Archive>, String>> =
        vec![Ok(Some(archive("a.zip"))), Ok(None), Ok(Some(archive("b.zip")))];
    let v = collect_archives(found).unwrap();
    assert_eq!(v.len(), 2);
    assert_eq!(v[0].path, PathBuf::from("a.zip"));
    assert_eq!(v[1].path, PathBuf::from("b.zip"));
}

#[test]
fn collect_stops_at_first_error() {
    let found: Vec<Result<Option<Archive>, String>> = vec![
        Ok(Some(archive("a.zip"))),
        Err("first".to_string()),
        Ok(Some(archive("b.zip"))),
        Err("second".to_string()),
    ];
    assert_eq!(collect_archives(found).err(), Some("first".to_string()));
    let none: Vec<Result<Option<Archive>, String>> = vec![];
    assert!(collect_archives(none).unwrap().is_empty());
}
