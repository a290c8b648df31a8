use orbitfm::fs_utils::{
    detect_disks, dir_preview, drive_disks, drive_roots, file_preview, file_read_for, home_dir,
    mount_folders, open_with_system, shortcut_candidates, shortcuts_list, FileData, FileRead,
};
use orbitfm::types::DirItem;
use orbitfm::paths::path_file_name;
use std::path::Path;

fn item(name: &str, is_dir: bool) -> DirItem {
    DirItem { name: name.to_string(), is_dir, len: 0 }
}

#[test]
fn home_dir_falls_back_to_root() {
    assert_eq!(home_dir(Some("/home/ann".to_string()), false), "/home/ann");
    assert_eq!(home_dir(None, false), "/");
    assert_eq!(home_dir(None, true), "C:\\");
}

#[test]
fn shortcut_candidates_join_home() {
    let c = shortcut_candidates("/home/ann");
    let expected: Vec<String> = ["", "Desktop", "Documents", "Downloads", "Pictures", "Music", "Videos"]
        .iter()
        .map(|n| if n.is_empty() { "/home/ann".to_string() } else { Path::new("/home/ann").join(n).to_string_lossy().into_owned() })
        .collect();
    assert_eq!(c, expected);
    assert_eq!(c[1], "/home/ann/Desktop");
}

#[test]
fn shortcuts_list_keeps_existing() {
    let flags = vec![true, false, true, false, false, true, false];
    assert_eq!(shortcuts_list("/h", &flags), vec!["/h", "/h/Documents", "/h/Music"]);
    assert_eq!(shortcuts_list("/h", &vec![true]), vec!["/h"]);
    assert!(shortcuts_list("/h", &vec![]).is_empty());
}

#[test]
fn disks_start_with_root() {
    let mounts = vec!["/mnt/usb".to_string(), "/media/cd".to_string()];
    let d = detect_disks(&mounts);
    assert_eq!(d.len(), 3);
    assert_eq!(d[0].name, "/");
    assert_eq!(d[0].label, "\u{eb46} / (root)");
    assert_eq!(d[1].name, "/mnt/usb");
    assert_eq!(d[1].label, "\u{f0c7} usb");
    assert_eq!(d[2].label, "\u{f0c7} cd");
    assert_eq!(mount_folders(), vec!["/mnt", "/media"]);
}

#[test]
fn windows_drives() {
    let roots = drive_roots();
    assert_eq!(roots.len(), 26);
    assert_eq!(roots[0], "A:\\");
    assert_eq!(roots[2], "C:\\");
    assert_eq!(roots[25], "Z:\\");
    let d = drive_disks(&vec!["C:\\".to_string()]);
    assert_eq!(d.len(), 1);
    assert_eq!(d[0].name, "C:\\");
    assert_eq!(d[0].label, "\u{f0c7} C:\\");
}

#[test]
fn dir_preview_lists_entries() {
    let items = vec![item("src", true), item("main.rs", false)];
    let text = dir_preview("/p", &items);
    assert_eq!(text, "\u{f07c} /p\n\n\u{f07c} src\n\u{f15b} main.rs\n\nTotal: 2 elements");
}

#[test]
fn dir_preview_of_empty_folder() {
    assert_eq!(dir_preview("/e", &vec![]), "\u{f07c} /e\n\n\nTotal: 0 elements");
}

#[test]
fn dir_preview_stops_at_thirty() {
    let items: Vec<DirItem> = (0..45).map(|i| item(&format!("f{}", i), false)).collect();
    let text = dir_preview("/big", &items);
    assert!(text.contains("\u{f15b} f29\n"));
    assert!(!text.contains("f30"));
    assert!(text.ends_with("\n... (more files)\n\nTotal: 30 elements"));
    let exactly: Vec<DirItem> = (0..30).map(|i| item(&format!("g{}", i), false)).collect();
    assert!(dir_preview("/x", &exactly).ends_with("... (more files)\n\nTotal: 30 elements"));
}

#[test]
fn file_preview_by_kind() {
    assert_eq!(file_read_for("png"), FileRead::Nothing);
    assert_eq!(file_read_for("zip"), FileRead::Size);
    assert_eq!(file_read_for("rs"), FileRead::Head);
    assert_eq!(file_preview("/a.png", "png", &FileData::Size(9)), "\u{f02e9}  Images\n\n/a.png");
    assert_eq!(file_preview("/a.zip", "zip", &FileData::Size(2048)), "\u{eae8} bin file\n\nsize: 2.0 KB");
    assert_eq!(file_preview("/a.zip", "zip", &FileData::Head(vec![1])), "\u{eae8} bin file\n\nsize: 0 B");
    assert_eq!(file_preview("/a.txt", "txt", &FileData::Head(b"hello".to_vec())), "hello");
    assert_eq!(file_preview("/a.txt", "txt", &FileData::Head(vec![104, 0, 105])), "\u{eae8} Bin file");
    assert_eq!(file_preview("/a.txt", "txt", &FileData::Head(vec![0xff, 0x41])), "\u{fffd}A");
    assert_eq!(
        file_preview("/a.txt", "txt", &FileData::OpenFailed("denied".to_string())),
        "\u{274c} Error:\ndenied"
    );
    assert_eq!(file_preview("/a.txt", "txt", &FileData::Size(3)), "");
}

#[test]
fn file_preview_reads_at_most_8192_bytes() {
    let mut bytes = vec![b'a'; 8192];
    bytes.push(0);
    let text = file_preview("/long", "log", &FileData::Head(bytes));
    assert_eq!(text.len(), 8192);
}

#[test]
fn open_status_messages() {
    let mut status = String::new();
    open_with_system("/home/ann/report.pdf", &Ok(()), &mut status);
    assert_eq!(status, "Open: report.pdf");
    open_with_system("/x", &Err("no opener".to_string()), &mut status);
    assert_eq!(status, "False opened: no opener");
}

#[test]
fn shortcut_candidates_are_distinct_folders_of_home() {
    let home = "/home/ann";
    let c = shortcut_candidates(home);
    let names = ["Desktop", "Documents", "Downloads", "Pictures", "Music", "Videos"];
    for (k, p) in c.iter().enumerate().skip(1) {
        assert_eq!(path_file_name(p), names[k - 1]);
        assert_eq!(Path::new(p).parent(), Some(Path::new(home)));
    }
    for a in 0..c.len() {
        for b in 0..c.len() {
            if a != b {
                assert_ne!(c[a], c[b]);
            }
        }
    }
}

#[test]
fn shortcuts_list_keeps_distinct_folders_of_home() {
    let home = "/home/ann/";
    let kept = shortcuts_list(home, &vec![true, false, true, true, false, false, true]);
    assert_eq!(kept.len(), 4);
    assert_eq!(kept[0], home);
    for p in kept.iter().skip(1) {
        assert_eq!(Path::new(p).parent(), Some(Path::new("/home/ann")));
    }
    assert_eq!(path_file_name(&kept[3]), "Videos");
}

#[test]
fn text_preview_has_no_more_characters_than_bytes() {
    let bytes: Vec<u8> = vec![0xff, 0xfe, b'a', 0xc3];
    let text = file_preview("/t/x.txt", "txt", &FileData::Head(bytes.clone()));
    assert_eq!(text, "\u{fffd}\u{fffd}a\u{fffd}");
    assert!(text.chars().count() <= bytes.len());
}

#[test]
fn text_preview_is_cut_at_the_preview_size() {
    let bytes: Vec<u8> = vec![b'a'; 10000];
    let text = file_preview("/t/long.txt", "txt", &FileData::Head(bytes));
    assert_eq!(text.chars().count(), 8192);
    assert_eq!(text, "a".repeat(8192));
}
