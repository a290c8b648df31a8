use orbitfm::listing::read_dir_entries;
use orbitfm::types::{DirItem, FileEntry};

fn item(name: &str, is_dir: bool, len: u64) -> DirItem {
    DirItem { name: name.to_string(), is_dir, len }
}

fn names(v: &[FileEntry]) -> Vec<String> {
    v.iter().map(|e| e.name.clone()).collect()
}

#[test]
fn directories_come_first_then_names_in_order() {
    let items = vec![
        item("zeta.txt", false, 10),
        item("Beta", true, 4096),
        item("alpha.rs", false, 20),
        item("Alpha", true, 4096),
        item("beta.md", false, 30),
    ];
    let out = read_dir_entries(&items, false, "");
    assert_eq!(names(&out), vec!["Alpha", "Beta", "alpha.rs", "beta.md", "zeta.txt"]);
}

#[test]
fn hidden_entries_only_when_shown() {
    let items = vec![item(".git", true, 0), item(".bashrc", false, 5), item("src", true, 0)];
    assert_eq!(names(&read_dir_entries(&items, false, "")), vec!["src"]);
    assert_eq!(names(&read_dir_entries(&items, true, "")), vec![".git", "src", ".bashrc"]);
}

#[test]
fn query_is_case_insensitive_substring() {
    let items = vec![
        item("README.md", false, 1),
        item("main.rs", false, 1),
        item("Readme_old.txt", false, 1),
        item("docs", true, 0),
    ];
    assert_eq!(names(&read_dir_entries(&items, false, "readme")), vec!["README.md", "Readme_old.txt"]);
    assert_eq!(names(&read_dir_entries(&items, false, "OLD")), vec!["Readme_old.txt"]);
    assert_eq!(names(&read_dir_entries(&items, false, "xyz")), Vec::<String>::new());
}

#[test]
fn entry_fields_from_items() {
    let items = vec![item("Photo.JPG", false, 1234), item("dir.d", true, 4096), item("noext", false, 3)];
    let out = read_dir_entries(&items, false, "");
    assert_eq!(out[0].name, "dir.d");
    assert!(out[0].is_dir);
    assert_eq!(out[0].size, 0);
    assert_eq!(out[0].extension, "");
    assert_eq!(out[1].name, "Photo.JPG");
    assert_eq!(out[1].size, 1234);
    assert_eq!(out[1].extension, "jpg");
    assert_eq!(out[2].extension, "");
}

#[test]
fn extension_rules_of_paths() {
    let items = vec![item(".hidden", false, 1), item("archive.tar.GZ", false, 1), item("trailing.", false, 1)];
    let out = read_dir_entries(&items, true, "");
    assert_eq!(names(&out), vec![".hidden", "archive.tar.GZ", "trailing."]);
    assert_eq!(out[0].extension, "");
    assert_eq!(out[1].extension, "gz");
    assert_eq!(out[2].extension, "");
}

#[test]
fn equal_keys_keep_directory_order() {
    let items = vec![item("same", false, 1), item("same", false, 2), item("a", false, 3), item("same", false, 3)];
    let out = read_dir_entries(&items, false, "");
    let sizes: Vec<u64> = out.iter().map(|e| e.size).collect();
    assert_eq!(names(&out), vec!["a", "same", "same", "same"]);
    assert_eq!(sizes, vec![3, 1, 2, 3]);
}

#[test]
fn names_compare_by_code_point() {
    let items = vec![item("b", false, 0), item("B", false, 0), item("é", false, 0), item("a", false, 0), item("ab", false, 0)];
    let out = read_dir_entries(&items, false, "");
    assert_eq!(names(&out), vec!["B", "a", "ab", "b", "é"]);
}

#[test]
fn empty_directory_lists_nothing() {
    assert!(read_dir_entries(&Vec::new(), true, "x").is_empty());
}

#[test]
fn same_directory_gives_same_list() {
    let items = vec![item("b", false, 1), item("a", true, 0), item(".c", false, 2), item("b", false, 3)];
    let one = read_dir_entries(&items, true, "");
    let two = read_dir_entries(&items, true, "");
    let key = |v: &Vec<FileEntry>| v.iter().map(|e| (e.name.clone(), e.is_dir, e.size, e.extension.clone())).collect::<Vec<_>>();
    assert_eq!(key(&one), key(&two));
    assert_eq!(names(&one), vec!["a", ".c", "b", "b"]);
}

#[test]
fn hiding_and_querying_keep_order() {
    let items = vec![
        item(".cfg", true, 0),
        item("Notes.md", false, 1),
        item("bin", true, 0),
        item(".notes", false, 2),
        item("todo", false, 3),
    ];
    let all = read_dir_entries(&items, true, "");
    let visible: Vec<String> = names(&all).into_iter().filter(|n| !n.starts_with('.')).collect();
    assert_eq!(names(&read_dir_entries(&items, false, "")), visible);
    let matching: Vec<String> = names(&all).into_iter().filter(|n| n.to_lowercase().contains("note")).collect();
    assert_eq!(names(&read_dir_entries(&items, true, "NOTE")), matching);
    assert_eq!(matching, vec![".notes", "Notes.md"].iter().map(|s| s.to_string()).collect::<Vec<_>>());
}
