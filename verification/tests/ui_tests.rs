use orbitfm::app::App;
use orbitfm::types::{DirItem, DiskInfo, FileEntry};
use orbitfm::ui::{
    file_icon, file_lines, shortcut_pane, file_list_title, icon_column, info_bar, path_bar, preview_title, shortcut_icon,
    shortcut_label, size_column,
};

#[test]
fn file_icons() {
    assert_eq!(file_icon(true, "rs"), "\u{f07c}");
    assert_eq!(file_icon(false, "rs"), "\u{e7a8}");
    assert_eq!(file_icon(false, "ts"), "\u{f2ee}");
    assert_eq!(file_icon(false, "yml"), "\u{e60b}");
    assert_eq!(file_icon(false, "webp"), "\u{f02e9}");
    assert_eq!(file_icon(false, "ico"), "\u{f15c}");
    assert_eq!(file_icon(false, "webm"), "\u{f0567}");
    assert_eq!(file_icon(false, "7z"), "\u{f003c}");
    assert_eq!(file_icon(false, "hpp"), "\u{e61e}");
    assert_eq!(file_icon(false, "go"), "\u{f07d3}");
    assert_eq!(file_icon(false, "class"), "\u{e256}");
    assert_eq!(file_icon(false, "php"), "\u{e73d}");
    assert_eq!(file_icon(false, ""), "\u{f15c}");
}

#[test]
fn shortcut_icons_and_labels() {
    assert_eq!(shortcut_icon("/home/ann", "/home/ann"), "\u{f015}");
    assert_eq!(shortcut_icon("/home/ann/", "/home/ann"), "\u{f015}");
    assert_eq!(shortcut_icon("/home/ann/Music", "/home/ann"), "\u{f0067}");
    assert_eq!(shortcut_icon("/home/ann/Desktop", "/home/ann"), "\u{f07c0}");
    assert_eq!(shortcut_icon("/srv", "/home/ann"), "\u{f07c}");
    assert_eq!(shortcut_label("/home/ann", "/home/ann"), "\u{f015} Home");
    assert_eq!(shortcut_label("/home/ann/Videos", "/home/ann"), "\u{f022b} Videos");
    assert_eq!(shortcut_label("/", "/home/ann"), "\u{f07c} ?");
}

fn entry(name: &str, is_dir: bool, size: u64, ext: &str) -> FileEntry {
    FileEntry { name: name.to_string(), is_dir, size, extension: ext.to_string() }
}

#[test]
fn list_columns() {
    assert_eq!(size_column(&entry("d", true, 0, "")), "         ");
    assert_eq!(size_column(&entry("f", false, 5, "")), "       5 B");
    assert_eq!(size_column(&entry("f", false, 1536, "")), "    1.5 KB");
    assert_eq!(size_column(&entry("f", false, 1048575, "")), "  1024.0 KB");
    assert_eq!(icon_column(&entry("f.rs", false, 5, "rs")), "\u{e7a8} ");
}

#[test]
fn bars_and_titles() {
    let (mut app, _) = App::new("/h".to_string(), vec![], vec![]);
    assert_eq!(path_bar(&app), " /h");
    assert_eq!(file_list_title(&app), " Files (0) ");
    assert_eq!(preview_title(&app), " Перегляд ");
    assert_eq!(info_bar(&app), app.status_msg);
    app.entries_loaded(&vec![DirItem { name: "a.rs".to_string(), is_dir: false, len: 2048 }]);
    app.status_msg = "ok".to_string();
    assert_eq!(preview_title(&app), " \u{e7a8} a.rs ");
    assert_eq!(info_bar(&app), "  \u{e7a8} a.rs  │  2.0 KB  │  ok");
    app.search_mode = true;
    assert_eq!(file_list_title(&app), " Files (1) ");
    app.search_query = "a".to_string();
    assert_eq!(path_bar(&app), "\u{1f50d} Пошук: a_");
    assert_eq!(file_list_title(&app), " \u{e68f} \"a\" (1) ");
}

#[test]
fn home_icon_wins_over_folder_name() {
    assert_eq!(shortcut_icon("/u/Music", "/u/Music"), "\u{f015}");
    assert_eq!(shortcut_label("/u/Music", "/u/Music"), "\u{f015} Home");
}

#[test]
fn shortcut_pane_lines() {
    let disks = vec![DiskInfo { name: "/".to_string(), label: "root".to_string() }];
    let (app, _) = App::new("/h".to_string(), vec!["/h".to_string(), "/h/Music".to_string()], disks);
    let lines = shortcut_pane(&app, "/h");
    let texts: Vec<(String, bool)> = lines.into_iter().map(|l| (l.text, l.dim)).collect();
    assert_eq!(
        texts,
        vec![
            ("\u{f015} Home".to_string(), false),
            ("\u{f0067} Music".to_string(), false),
            ("─────────────".to_string(), true),
            ("root".to_string(), false),
        ]
    );
    let (bare, _) = App::new("/h".to_string(), vec!["/h".to_string()], vec![]);
    assert_eq!(shortcut_pane(&bare, "/h").len(), 1);
}

#[test]
fn file_list_lines() {
    let (mut app, _) = App::new("/h".to_string(), vec![], vec![]);
    app.entries_loaded(&vec![
        DirItem { name: "a.rs".to_string(), is_dir: false, len: 5 },
        DirItem { name: "src".to_string(), is_dir: true, len: 0 },
    ]);
    let lines = file_lines(&app);
    assert_eq!(lines.len(), 2);
    assert_eq!(lines[0].icon, "\u{f07c} ");
    assert_eq!(lines[0].name, "src");
    assert_eq!(lines[0].size, "         ");
    assert!(lines[0].is_dir);
    assert_eq!(lines[1].icon, "\u{e7a8} ");
    assert_eq!(lines[1].size, "       5 B");
    assert!(!lines[1].is_dir);
}

#[test]
fn shortcut_icon_depends_on_the_name_alone() {
    assert_eq!(shortcut_icon("/a/Desktop", "/h"), shortcut_icon("/a/Desktop", "/other"));
    assert_eq!(shortcut_icon("/a/Desktop", "/h"), shortcut_icon("/b/c/Desktop", "/h"));
    assert_eq!(shortcut_icon("/x/zzz", "/h"), "\u{f07c}");
    assert_eq!(shortcut_icon("/x/desktop", "/h"), "\u{f07c}");
    assert_eq!(shortcut_icon("/", "/h"), "\u{f07c}");
}
