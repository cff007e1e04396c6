use predicate_orders_builder::copier::{Action, Copier, Event};
use std::collections::BTreeMap;
use std::io::{Error, ErrorKind};

/// A source held in memory: a file with its bytes, or a directory with its
/// entries in listing order.
enum Source {
    File(Vec<u8>),
    Dir(Vec<(String, Source)>),
}

/// What stands at a destination path: `None` for a directory, the bytes for a
/// file.
type Destination = BTreeMap<Vec<String>, Option<Vec<u8>>>;

fn file(bytes: &str) -> Source {
    Source::File(bytes.as_bytes().to_vec())
}

fn dir(entries: Vec<(&str, Source)>) -> Source {
    Source::Dir(entries.into_iter().map(|(name, entry)| (name.to_string(), entry)).collect())
}

fn path(names: &[&str]) -> Vec<String> {
    names.iter().map(|name| name.to_string()).collect()
}

fn find<'a>(source: Option<&'a Source>, path: &[String]) -> Option<&'a Source> {
    let mut here = source?;
    for name in path {
        match here {
            Source::Dir(entries) => {
                here = &entries.iter().find(|(entry, _)| entry == name)?.1;
            }
            Source::File(_) => return None,
        }
    }
    Some(here)
}

fn not_found() -> Error {
    Error::new(ErrorKind::NotFound, "no such file or directory")
}

fn show(action: &Action) -> String {
    match action {
        Action::CreateDirAll(path) => format!("mkdir {}", path.join("/")),
        Action::ReadDir(path) => format!("open {}", path.join("/")),
        Action::NextEntry => "next".to_string(),
        Action::CopyFile(path) => format!("copy {}", path.join("/")),
        Action::Finish(Ok(())) => "finish ok".to_string(),
        Action::Finish(Err(error)) => format!("finish {:?}", error.kind()),
    }
}

/// Carries out what the copier asks for on the values in memory. The action
/// numbered `broken` (from 0) fails with a permission error instead.
fn run(
    source: Option<&Source>,
    destination: &mut Destination,
    broken: Option<usize>,
    log: &mut Vec<String>,
) -> Result<(), Error> {
    let mut open: Vec<(&Vec<(String, Source)>, usize)> = Vec::new();
    let (mut copier, mut action) = Copier::start();
    let mut carried_out: usize = 0;
    loop {
        log.push(show(&action));
        let fails = broken == Some(carried_out);
        carried_out += 1;
        let event = match action {
            Action::Finish(outcome) => {
                assert!(copier.is_finished());
                return outcome;
            }
            _ if fails => Event::Failed(Error::new(ErrorKind::PermissionDenied, "denied")),
            Action::CreateDirAll(path) => {
                for depth in 0..=path.len() {
                    destination.insert(path[..depth].to_vec(), None);
                }
                Event::Done
            }
            Action::ReadDir(path) => match find(source, &path) {
                Some(Source::Dir(entries)) => {
                    open.push((entries, 0));
                    Event::Done
                }
                _ => Event::Failed(not_found()),
            },
            Action::NextEntry => {
                let (entries, next) = open.last_mut().expect("a directory is open");
                if *next < entries.len() {
                    let (name, entry) = &entries[*next];
                    *next += 1;
                    Event::Entry { name: name.clone(), is_dir: matches!(entry, Source::Dir(_)) }
                } else {
                    open.pop();
                    Event::EndOfDir
                }
            }
            Action::CopyFile(path) => match find(source, &path) {
                Some(Source::File(bytes)) => {
                    destination.insert(path, Some(bytes.clone()));
                    Event::Done
                }
                _ => Event::Failed(not_found()),
            },
        };
        assert!(!copier.is_finished());
        assert!(copier.accepts(&event));
        action = copier.step(event);
    }
}

fn copy(source: Option<&Source>, destination: &mut Destination) -> Result<(), Error> {
    run(source, destination, None, &mut Vec::new())
}

#[test]
fn start_creates_the_destination_root() {
    let (copier, action) = Copier::start();
    assert!(!copier.is_finished());
    assert!(matches!(action, Action::CreateDirAll(ref path) if path.is_empty()));
    assert!(copier.accepts(&Event::Done));
    assert!(copier.accepts(&Event::Failed(not_found())));
    assert!(!copier.accepts(&Event::EndOfDir));
    assert!(!copier.accepts(&Event::Entry { name: "x".to_string(), is_dir: false }));
}

#[test]
fn copies_a_file_and_a_subdirectory() {
    let source = dir(vec![("x.txt", file("hello")), ("b", dir(vec![("y.txt", file("world"))]))]);
    let mut out = Destination::new();
    assert!(copy(Some(&source), &mut out).is_ok());
    assert_eq!(out.get(&path(&["x.txt"])), Some(&Some(b"hello".to_vec())));
    assert_eq!(out.get(&path(&["b", "y.txt"])), Some(&Some(b"world".to_vec())));
    assert_eq!(out.get(&path(&["b"])), Some(&None));
    assert_eq!(out.get(&path(&[])), Some(&None));
    assert_eq!(out.len(), 4);
}

#[test]
fn replaces_a_file_that_is_there() {
    let source = dir(vec![("x.txt", file("new"))]);
    let mut out = Destination::new();
    out.insert(path(&[]), None);
    out.insert(path(&["x.txt"]), Some(b"old".to_vec()));
    assert!(copy(Some(&source), &mut out).is_ok());
    assert_eq!(out.get(&path(&["x.txt"])), Some(&Some(b"new".to_vec())));
}

#[test]
fn missing_source_fails_with_not_found() {
    let mut out = Destination::new();
    let outcome = copy(None, &mut out);
    assert_eq!(outcome.unwrap_err().kind(), ErrorKind::NotFound);
}

#[test]
fn missing_source_still_creates_the_destination() {
    let mut out = Destination::new();
    let mut log = Vec::new();
    assert!(run(None, &mut out, None, &mut log).is_err());
    assert_eq!(out.get(&path(&[])), Some(&None));
    assert_eq!(out.len(), 1);
    assert_eq!(log, vec!["mkdir ", "open ", "finish NotFound"]);
}

#[test]
fn source_that_is_a_file_fails_when_opened() {
    let source = file("plain");
    let mut out = Destination::new();
    let mut log = Vec::new();
    assert!(run(Some(&source), &mut out, None, &mut log).is_err());
    assert_eq!(log, vec!["mkdir ", "open ", "finish NotFound"]);
}

#[test]
fn every_path_of_the_source_arrives() {
    let source = dir(vec![
        ("a", dir(vec![("b", dir(vec![("c", dir(vec![("deep", file("4"))]))])), ("f", file("2"))])),
        ("empty", dir(vec![])),
        ("g", file("")),
        ("z", dir(vec![("f", file("other"))])),
    ]);
    let mut out = Destination::new();
    assert!(copy(Some(&source), &mut out).is_ok());
    let mut expected = Destination::new();
    expected.insert(path(&[]), None);
    expected.insert(path(&["a"]), None);
    expected.insert(path(&["a", "b"]), None);
    expected.insert(path(&["a", "b", "c"]), None);
    expected.insert(path(&["a", "b", "c", "deep"]), Some(b"4".to_vec()));
    expected.insert(path(&["a", "f"]), Some(b"2".to_vec()));
    expected.insert(path(&["empty"]), None);
    expected.insert(path(&["g"]), Some(Vec::new()));
    expected.insert(path(&["z"]), None);
    expected.insert(path(&["z", "f"]), Some(b"other".to_vec()));
    assert_eq!(out, expected);
}

#[test]
fn second_copy_changes_nothing() {
    let source = dir(vec![("x.txt", file("hello")), ("b", dir(vec![("y.txt", file("world"))]))]);
    let mut out = Destination::new();
    out.insert(path(&["kept"]), Some(b"mine".to_vec()));
    assert!(copy(Some(&source), &mut out).is_ok());
    let once = out.clone();
    assert!(copy(Some(&source), &mut out).is_ok());
    assert_eq!(out, once);
}

#[test]
fn leaves_what_the_source_lacks() {
    let source = dir(vec![("x.txt", file("hello"))]);
    let mut out = Destination::new();
    out.insert(path(&[]), None);
    out.insert(path(&["kept"]), Some(b"mine".to_vec()));
    out.insert(path(&["old"]), None);
    out.insert(path(&["old", "inner"]), Some(b"stays".to_vec()));
    assert!(copy(Some(&source), &mut out).is_ok());
    assert_eq!(out.get(&path(&["kept"])), Some(&Some(b"mine".to_vec())));
    assert_eq!(out.get(&path(&["old", "inner"])), Some(&Some(b"stays".to_vec())));
    assert_eq!(out.get(&path(&["x.txt"])), Some(&Some(b"hello".to_vec())));
    assert_eq!(out.len(), 5);
}

#[test]
fn empty_source_takes_three_rounds() {
    let source = dir(vec![]);
    let mut out = Destination::new();
    let mut log = Vec::new();
    assert!(run(Some(&source), &mut out, None, &mut log).is_ok());
    assert_eq!(log, vec!["mkdir ", "open ", "next", "finish ok"]);
    assert_eq!(out.len(), 1);
}

#[test]
fn works_depth_first_in_listing_order() {
    let source = dir(vec![
        ("z", file("1")),
        ("b", dir(vec![("y", file("2")), ("c", dir(vec![]))])),
        ("a", file("3")),
    ]);
    let mut out = Destination::new();
    let mut log = Vec::new();
    assert!(run(Some(&source), &mut out, None, &mut log).is_ok());
    assert_eq!(
        log,
        vec![
            "mkdir ",
            "open ",
            "next",
            "copy z",
            "next",
            "mkdir b",
            "open b",
            "next",
            "copy b/y",
            "next",
            "mkdir b/c",
            "open b/c",
            "next",
            "next",
            "next",
            "copy a",
            "next",
            "finish ok",
        ]
    );
}

#[test]
fn first_failure_ends_the_copy_and_keeps_what_was_written() {
    let source = dir(vec![("x", file("1")), ("y", file("2")), ("z", file("3"))]);
    let mut out = Destination::new();
    let mut log = Vec::new();
    // Actions 0 to 4: mkdir, open, next, copy x, next; action 5 is the copy of y.
    let outcome = run(Some(&source), &mut out, Some(5), &mut log);
    let error = outcome.unwrap_err();
    assert_eq!(error.kind(), ErrorKind::PermissionDenied);
    assert_eq!(error.to_string(), "denied");
    assert_eq!(log.last().map(String::as_str), Some("finish PermissionDenied"));
    assert_eq!(log.len(), 7);
    assert_eq!(out.get(&path(&["x"])), Some(&Some(b"1".to_vec())));
    assert_eq!(out.get(&path(&["y"])), None);
    assert_eq!(out.get(&path(&["z"])), None);
}

#[test]
fn failure_to_create_the_destination_ends_at_once() {
    let source = dir(vec![("x", file("1"))]);
    let mut out = Destination::new();
    let mut log = Vec::new();
    let outcome = run(Some(&source), &mut out, Some(0), &mut log);
    assert_eq!(outcome.unwrap_err().kind(), ErrorKind::PermissionDenied);
    assert_eq!(log, vec!["mkdir ", "finish PermissionDenied"]);
    assert!(out.is_empty());
}

#[test]
fn failure_inside_a_subdirectory_ends_the_whole_copy() {
    let source = dir(vec![("b", dir(vec![("y", file("2"))])), ("after", file("3"))]);
    let mut out = Destination::new();
    let mut log = Vec::new();
    // mkdir, open, next, mkdir b, open b, next, copy b/y (fails).
    let outcome = run(Some(&source), &mut out, Some(6), &mut log);
    assert_eq!(outcome.unwrap_err().kind(), ErrorKind::PermissionDenied);
    assert_eq!(log.last().map(String::as_str), Some("finish PermissionDenied"));
    assert_eq!(out.get(&path(&["b"])), Some(&None));
    assert_eq!(out.get(&path(&["after"])), None);
}

#[test]
fn entry_that_is_a_directory_is_created_then_opened() {
    let (mut copier, _) = Copier::start();
    assert!(matches!(copier.step(Event::Done), Action::ReadDir(ref p) if p.is_empty()));
    assert!(matches!(copier.step(Event::Done), Action::NextEntry));
    let created = copier.step(Event::Entry { name: "sub".to_string(), is_dir: true });
    assert!(matches!(created, Action::CreateDirAll(ref p) if *p == path(&["sub"])));
    assert!(matches!(copier.step(Event::Done), Action::ReadDir(ref p) if *p == path(&["sub"])));
    assert!(matches!(copier.step(Event::Done), Action::NextEntry));
    let inner = copier.step(Event::Entry { name: "f".to_string(), is_dir: false });
    assert!(matches!(inner, Action::CopyFile(ref p) if *p == path(&["sub", "f"])));
    assert!(matches!(copier.step(Event::Done), Action::NextEntry));
    assert!(matches!(copier.step(Event::EndOfDir), Action::NextEntry));
    let outer = copier.step(Event::Entry { name: "g".to_string(), is_dir: false });
    assert!(matches!(outer, Action::CopyFile(ref p) if *p == path(&["g"])));
    assert!(matches!(copier.step(Event::Done), Action::NextEntry));
    assert!(matches!(copier.step(Event::EndOfDir), Action::Finish(Ok(()))));
    assert!(copier.is_finished());
}

#[test]
fn accepts_only_the_answers_to_the_pending_action() {
    let entry = || Event::Entry { name: "n".to_string(), is_dir: false };
    let (mut copier, _) = Copier::start();
    // ReadDir is out.
    copier.step(Event::Done);
    assert!(copier.accepts(&Event::Done));
    assert!(copier.accepts(&Event::Failed(not_found())));
    assert!(!copier.accepts(&entry()));
    assert!(!copier.accepts(&Event::EndOfDir));
    // NextEntry is out.
    copier.step(Event::Done);
    assert!(!copier.accepts(&Event::Done));
    assert!(copier.accepts(&entry()));
    assert!(copier.accepts(&Event::EndOfDir));
    assert!(copier.accepts(&Event::Failed(not_found())));
    // CopyFile is out.
    copier.step(entry());
    assert!(copier.accepts(&Event::Done));
    assert!(copier.accepts(&Event::Failed(not_found())));
    assert!(!copier.accepts(&entry()));
    assert!(!copier.accepts(&Event::EndOfDir));
    // Finish is out.
    copier.step(Event::Failed(not_found()));
    assert!(copier.is_finished());
    assert!(!copier.accepts(&Event::Done));
    assert!(!copier.accepts(&entry()));
    assert!(!copier.accepts(&Event::EndOfDir));
    assert!(!copier.accepts(&Event::Failed(not_found())));
}

#[test]
fn reported_error_comes_back_as_it_was() {
    let (mut copier, _) = Copier::start();
    let action = copier.step(Event::Failed(Error::new(ErrorKind::StorageFull, "disk is full")));
    match action {
        Action::Finish(Err(error)) => {
            assert_eq!(error.kind(), ErrorKind::StorageFull);
            assert_eq!(error.to_string(), "disk is full");
        }
        _ => panic!("the copy did not end with the error"),
    }
}
