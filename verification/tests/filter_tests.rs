use line_endings::filters::{ExtensionFilter, FileFilter};

#[test]
fn extension_matches_plain_name() {
    let filter = FileFilter::extension(".txt");
    assert!(filter.apply("a.txt"));
}

#[test]
fn extension_rejects_other_final_extension() {
    let filter = FileFilter::extension(".txt");
    assert!(!filter.apply("a.txt.bak"));
}

#[test]
fn extension_rejects_name_without_dot() {
    let filter = FileFilter::extension(".txt");
    assert!(!filter.apply("a"));
}

#[test]
fn extension_rejects_empty_extension() {
    let filter = FileFilter::extension(".txt");
    assert!(!filter.apply("a."));
}

#[test]
fn extension_with_or_without_leading_dot() {
    let with_dot = FileFilter::extension(".rs");
    let without_dot = FileFilter::extension("rs");
    for name in ["main.rs", "lib.rs.bak", "x", "x.", "dir/mod.rs"] {
        assert_eq!(with_dot.apply(name), without_dot.apply(name));
    }
    assert!(with_dot.apply("main.rs"));
    assert!(with_dot.apply("dir/mod.rs"));
}

#[test]
fn extension_is_case_sensitive() {
    let filter = FileFilter::extension(".txt");
    assert!(!filter.apply("a.TXT"));
}

#[test]
fn extension_filter_direct() {
    let filter = ExtensionFilter::new("md");
    assert!(filter.apply("README.md"));
    assert!(!filter.apply("README"));
    assert!(!filter.apply("README.md.old"));
}

#[test]
fn accept_all_matches_everything() {
    let filter = FileFilter::AcceptAll;
    assert!(filter.apply("a.txt"));
    assert!(filter.apply(""));
    assert!(filter.apply("no_dot"));
    assert!(filter.apply("dir/file.bin"));
}
