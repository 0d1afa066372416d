use line_endings::filters::FileFilter;
use line_endings::iter::{EntryKind, FileNames, ListingEntry, MultipleFileNames, Step};

fn entry(path: &str, kind: EntryKind) -> ListingEntry {
    ListingEntry { path: path.to_string(), kind }
}

/// Drives an enumeration over a synthetic directory tree: each element of
/// `tree` maps a directory path to its listing. Returns the yielded file
/// paths and the directories that were listed.
fn drive(mut names: FileNames, tree: &[(&str, Vec<ListingEntry>)]) -> (Vec<String>, Vec<String>) {
    let mut yielded = Vec::new();
    let mut listed = Vec::new();
    let mut steps = 0;
    loop {
        steps += 1;
        assert!(steps < 1000, "enumeration did not finish");
        match names.next_step() {
            Step::Yield(path) => yielded.push(path),
            Step::ListDir(dir) => {
                listed.push(dir.clone());
                match tree.iter().find(|(d, _)| *d == dir) {
                    Some((_, entries)) => names.accept_entries(entries),
                    None => {},
                }
            },
            Step::Done => break,
        }
    }
    (yielded, listed)
}

fn sorted(mut v: Vec<String>) -> Vec<String> {
    v.sort();
    v
}

#[test]
fn single_file_yields_once() {
    let names = FileNames::new(
        Some("one/file.txt".to_string()),
        Some("ignored".to_string()),
        Some(".md".to_string()),
        true,
    );
    let (yielded, listed) = drive(names, &[]);
    assert_eq!(yielded, vec!["one/file.txt".to_string()]);
    assert!(listed.is_empty());
}

#[test]
fn single_file_then_done_forever() {
    let mut names = FileNames::new(Some("p".to_string()), None, None, false);
    assert!(matches!(names.next_step(), Step::Yield(f) if f == "p"));
    assert!(matches!(names.next_step(), Step::Done));
    assert!(matches!(names.next_step(), Step::Done));
}

#[test]
fn recursive_enumeration_with_filter() {
    let tree = [
        (
            "root",
            vec![
                entry("root/a.txt", EntryKind::File),
                entry("root/sub", EntryKind::Dir),
                entry("root/b.md", EntryKind::File),
                entry("root/socket", EntryKind::Other),
            ],
        ),
        (
            "root/sub",
            vec![
                entry("root/sub/c.txt", EntryKind::File),
                entry("root/sub/deeper", EntryKind::Dir),
            ],
        ),
        ("root/sub/deeper", vec![entry("root/sub/deeper/d.txt", EntryKind::File)]),
    ];
    let names = FileNames::generate(Some("root".to_string()), FileFilter::extension(".txt"), true);
    let (yielded, listed) = drive(names, &tree);
    assert_eq!(
        sorted(yielded),
        vec![
            "root/a.txt".to_string(),
            "root/sub/c.txt".to_string(),
            "root/sub/deeper/d.txt".to_string(),
        ]
    );
    assert_eq!(
        sorted(listed),
        vec!["root".to_string(), "root/sub".to_string(), "root/sub/deeper".to_string()]
    );
}

#[test]
fn non_recursive_enumeration_stays_at_root() {
    let tree = [
        (
            "root",
            vec![
                entry("root/a.txt", EntryKind::File),
                entry("root/sub", EntryKind::Dir),
            ],
        ),
        ("root/sub", vec![entry("root/sub/c.txt", EntryKind::File)]),
    ];
    let names = FileNames::generate(Some("root".to_string()), FileFilter::extension(".txt"), false);
    let (yielded, listed) = drive(names, &tree);
    assert_eq!(yielded, vec!["root/a.txt".to_string()]);
    assert_eq!(listed, vec!["root".to_string()]);
}

#[test]
fn accept_all_yields_every_file_and_no_directories() {
    let tree = [
        (
            "r",
            vec![
                entry("r/a", EntryKind::File),
                entry("r/b.bin", EntryKind::File),
                entry("r/d", EntryKind::Dir),
            ],
        ),
        ("r/d", vec![entry("r/d/c", EntryKind::File)]),
    ];
    let names = FileNames::generate(Some("r".to_string()), FileFilter::AcceptAll, true);
    let (yielded, _) = drive(names, &tree);
    assert_eq!(
        sorted(yielded),
        vec!["r/a".to_string(), "r/b.bin".to_string(), "r/d/c".to_string()]
    );
}

#[test]
fn unlistable_directory_is_skipped() {
    let tree = [(
        "root",
        vec![
            entry("root/a.txt", EntryKind::File),
            entry("root/gone", EntryKind::Dir),
        ],
    )];
    let names = FileNames::generate(Some("root".to_string()), FileFilter::AcceptAll, true);
    let (yielded, listed) = drive(names, &tree);
    assert_eq!(yielded, vec!["root/a.txt".to_string()]);
    assert_eq!(
        sorted(listed),
        vec!["root".to_string(), "root/gone".to_string()]
    );
}

#[test]
fn default_root_is_current_directory() {
    let mut names = FileNames::generate(None, FileFilter::AcceptAll, false);
    assert!(matches!(names.next_step(), Step::ListDir(d) if d == "./"));
}

#[test]
fn run_to_end_yields_exactly_the_matching_files() {
    let names = MultipleFileNames {
        cur_dir: Some("root".to_string()),
        filter: FileFilter::extension(".txt"),
        all_dirs: Vec::new(),
        cur_dir_files: Vec::new(),
        recursive: true,
    };
    let listings = vec![
        vec![
            entry("root/a.txt", EntryKind::File),
            entry("root/sub", EntryKind::Dir),
            entry("root/b.md", EntryKind::File),
            entry("root/socket", EntryKind::Other),
        ],
        vec![entry("root/sub/c.txt", EntryKind::File)],
    ];
    let yielded = names.run_to_end(&listings);
    assert_eq!(
        yielded,
        vec!["root/a.txt".to_string(), "root/sub/c.txt".to_string()]
    );
}

#[test]
fn run_to_end_without_recursion_ignores_subdirectories() {
    let names = MultipleFileNames {
        cur_dir: Some("root".to_string()),
        filter: FileFilter::AcceptAll,
        all_dirs: Vec::new(),
        cur_dir_files: Vec::new(),
        recursive: false,
    };
    let listings = vec![
        vec![
            entry("root/a", EntryKind::File),
            entry("root/sub", EntryKind::Dir),
        ],
        vec![entry("root/sub/c", EntryKind::File)],
    ];
    let yielded = names.run_to_end(&listings);
    assert_eq!(yielded, vec!["root/a".to_string()]);
}

#[test]
fn tree_mode_from_options() {
    let mut names = FileNames::new(None, Some("base".to_string()), Some(".rs".to_string()), true);
    assert!(matches!(names.next_step(), Step::ListDir(d) if d == "base"));
    names.accept_entries(&vec![
        entry("base/x.rs", EntryKind::File),
        entry("base/y.txt", EntryKind::File),
    ]);
    assert!(matches!(names.next_step(), Step::Yield(f) if f == "base/x.rs"));
    assert!(matches!(names.next_step(), Step::Done));
}
