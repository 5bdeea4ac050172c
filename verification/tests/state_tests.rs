use abz::archive::Archive;
use abz::format::Format;
use abz::order::{sort_archives, SortKey};
use abz::state::{Action, App, Message};
use abz::status::Status;
use std::path::PathBuf;

fn archive(name: &str, size: u64, status: Status) -> Archive {
    Archive {
        path: PathBuf::from(name),
        format: Format::parse(name).unwrap(),
        size,
        status,
    }
}

fn names(app: &App) -> Vec<String> {
    app.archives().iter().map(|a| a.path.display().to_string()).collect()
}

#[test]
fn starts_empty() {
    let app = App::new();
    assert_eq!(app.format(), Format::Zip);
    assert!(app.archives().is_empty());
    assert!(!app.loading());
    assert!(app.recursion());
    let d = App::default();
    assert_eq!(d.format(), Format::Zip);
    assert!(d.recursion());
}

#[test]
fn settings_change() {
    let mut app = App::new();
    assert!(matches!(app.update(Message::UpdateFormat(Format::SevenZ)), Action::Nothing));
    assert_eq!(app.format(), Format::SevenZ);
    assert!(matches!(app.update(Message::UpdateRecursion(false)), Action::Nothing));
    assert!(!app.recursion());
}

#[test]
fn requests_ask_for_work() {
    let mut app = App::new();
    assert!(matches!(app.update(Message::PickFiles), Action::PickFiles));
    assert!(matches!(app.update(Message::PickFolder), Action::PickFolder(true)));
    app.update(Message::UpdateRecursion(false));
    assert!(matches!(app.update(Message::PickFolder), Action::PickFolder(false)));
    assert!(matches!(app.update(Message::Convert), Action::PickSaveFolder));
    assert!(matches!(app.update(Message::SelectSaveFolder(None)), Action::Nothing));
    assert!(!app.loading());
    match app.update(Message::Error("boom".to_string())) {
        Action::Report(text) => assert_eq!(text, "boom"),
        _ => panic!("an error is reported"),
    }
}

#[test]
fn selection_is_sorted_by_status_stably() {
    let mut app = App::new();
    app.update(Message::SelectArchives(vec![
        archive("a.zip", 3, Status::Success),
        archive("b.zip", 1, Status::Pending),
        archive("c.zip", 2, Status::Failed("x".to_string())),
    ]));
    app.update(Message::SelectArchives(vec![
        archive("d.7z", 9, Status::Pending),
        archive("e.tar.gz", 5, Status::Processing(0.5f32.to_bits())),
    ]));
    assert_eq!(names(&app), vec!["b.zip", "d.7z", "e.tar.gz", "a.zip", "c.zip"]);
}

#[test]
fn removal_resorts_by_size() {
    let mut app = App::new();
    app.update(Message::SelectArchives(vec![
        archive("a.zip", 30, Status::Pending),
        archive("b.zip", 10, Status::Pending),
        archive("c.zip", 20, Status::Pending),
        archive("d.zip", 10, Status::Pending),
    ]));
    assert_eq!(names(&app), vec!["a.zip", "b.zip", "c.zip", "d.zip"]);
    app.update(Message::RemoveArchive(2));
    assert_eq!(names(&app), vec!["b.zip", "d.zip", "a.zip"]);
    app.update(Message::RemoveAll);
    assert!(app.archives().is_empty());
}

#[test]
fn status_update_and_batch() {
    let mut app = App::new();
    app.update(Message::UpdateFormat(Format::TarGz));
    app.update(Message::SelectArchives(vec![
        archive("a.zip", 1, Status::Pending),
        archive("b.7z", 2, Status::Pending),
    ]));
    match app.update(Message::SelectSaveFolder(Some(PathBuf::from("/out")))) {
        Action::Convert(job) => {
            assert_eq!(job.folder, PathBuf::from("/out"));
            assert_eq!(job.format, Format::TarGz);
            assert_eq!(job.archives.len(), 2);
            assert_eq!(job.archives[1].path, PathBuf::from("b.7z"));
        }
        _ => panic!("a batch starts"),
    }
    assert!(app.loading());
    app.update(Message::UpdateArchiveStatus(1, Status::Processing(0.25f32.to_bits())));
    app.update(Message::UpdateArchiveStatus(0, Status::Success));
    assert!(matches!(app.archives()[0].status, Status::Success));
    assert_eq!(app.archives()[1].status.cmp(&Status::Processing(0.25f32.to_bits())), std::cmp::Ordering::Equal);
    assert_eq!(names(&app), vec!["a.zip", "b.7z"]);
    app.update(Message::Completed);
    assert!(!app.loading());
}

#[test]
fn sort_with_nan_keeps_every_archive() {
    let mut v = vec![
        archive("a.zip", 1, Status::Processing(0.9f32.to_bits())),
        archive("b.zip", 2, Status::Processing(f32::NAN.to_bits())),
        archive("c.zip", 3, Status::Processing(0.1f32.to_bits())),
        archive("d.zip", 4, Status::Pending),
    ];
    sort_archives(&mut v, SortKey::Status);
    let mut sizes: Vec<u64> = v.iter().map(|a| a.size).collect();
    sizes.sort();
    assert_eq!(sizes, vec![1, 2, 3, 4]);
    assert_eq!(v[0].size, 4);
}

#[test]
fn sort_by_size_is_stable() {
    let mut v = vec![
        archive("a.zip", 5, Status::Pending),
        archive("b.zip", 1, Status::Success),
        archive("c.zip", 5, Status::Pending),
        archive("d.zip", 0, Status::Pending),
        archive("e.zip", 1, Status::Pending),
    ];
    sort_archives(&mut v, SortKey::Size);
    let order: Vec<String> = v.iter().map(|a| a.path.display().to_string()).collect();
    assert_eq!(order, vec!["d.zip", "b.zip", "e.zip", "a.zip", "c.zip"]);
}

fn paths(v: &[Archive]) -> Vec<String> {
    v.iter().map(|a| a.path.display().to_string()).collect()
}

#[test]
fn sort_matches_std_stable_sort() {
    let statuses = [
        Status::Success,
        Status::Pending,
        Status::Processing(0.5f32.to_bits()),
        Status::Failed("f".to_string()),
        Status::Processing(0.25f32.to_bits()),
        Status::Pending,
        Status::Processing((-0.0f32).to_bits()),
        Status::Processing(0.0f32.to_bits()),
        Status::Success,
    ];
    let sizes = [7u64, 3, 7, 1, 3, 9, 0, 3, 1];
    let input: Vec<Archive> = statuses
        .iter()
        .zip(sizes.iter())
        .enumerate()
        .map(|(i, (s, n))| archive(&format!("{}.zip", i), *n, s.clone()))
        .collect();

    let mut ours = input.clone();
    sort_archives(&mut ours, SortKey::Size);
    let mut theirs = input.clone();
    theirs.sort_by_key(|a| a.size);
    assert_eq!(paths(&ours), paths(&theirs));

    let mut ours = input.clone();
    sort_archives(&mut ours, SortKey::Status);
    let mut theirs = input.clone();
    theirs.sort_by(|a, b| a.status.cmp(&b.status));
    assert_eq!(paths(&ours), paths(&theirs));
}
