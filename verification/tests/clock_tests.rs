use raincloud::clock::{derive_clock, LocalFile};

fn file(path: &str, modified: u64) -> LocalFile {
    LocalFile { path: path.as_bytes().to_vec(), data: Vec::new(), modified }
}

#[test]
fn empty_tree_has_zero_clock() {
    let files: Vec<LocalFile> = Vec::new();
    assert_eq!(derive_clock(&files), 0);
}

#[test]
fn clock_is_maximum_modification_time() {
    let files = vec![file("a", 5), file("b/c", 9), file("d", 3)];
    assert_eq!(derive_clock(&files), 9);
}

#[test]
fn clock_with_single_file() {
    let files = vec![file("only", 1_000_000_000_000)];
    assert_eq!(derive_clock(&files), 1_000_000_000_000);
}

#[test]
fn clock_ignores_order() {
    let a = vec![file("a", 7), file("b", 11)];
    let b = vec![file("b", 11), file("a", 7)];
    assert_eq!(derive_clock(&a), derive_clock(&b));
}
