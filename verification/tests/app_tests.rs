use orbitfm::app::{Action, App};
use orbitfm::fs_utils::{FileData, FileRead};
use orbitfm::types::{DirItem, DiskInfo, PanelFocus};

fn item(name: &str, is_dir: bool, len: u64) -> DirItem {
    DirItem { name: name.to_string(), is_dir, len }
}

fn started() -> App {
    let disks = vec![DiskInfo { name: "/".to_string(), label: "root".to_string() }];
    let (mut app, act) = App::new("/home/ann".to_string(), vec!["/home/ann".to_string()], disks);
    match act {
        Action::ListDir { path } => assert_eq!(path, "/home/ann"),
        _ => panic!("expected a listing"),
    }
    let items = vec![item("notes.txt", false, 5), item("docs", true, 0), item("pic.png", false, 7)];
    let act = app.entries_loaded(&items);
    match act {
        Action::PreviewDir { path } => assert_eq!(path, "/home/ann/docs"),
        _ => panic!("expected the folder preview"),
    }
    app
}

#[test]
fn new_app_state() {
    let (app, _) = App::new("/h".to_string(), vec![], vec![]);
    assert_eq!(app.current_path, "/h");
    assert_eq!(app.selected, 0);
    assert_eq!(app.list_state, Some(0));
    assert_eq!(app.shortcut_state, Some(0));
    assert_eq!(app.focus, PanelFocus::FileList);
    assert_eq!(app.status_msg, "q:exit  enter:open  bs:back  tab:panel  .:hiden  /:search  D:delete  r:reload");
    assert!(!app.search_mode);
    assert!(!app.show_hidden);
}

#[test]
fn listing_sorts_and_selects_first() {
    let app = started();
    let names: Vec<&str> = app.entries.iter().map(|e| e.name.as_str()).collect();
    assert_eq!(names, vec!["docs", "notes.txt", "pic.png"]);
    assert_eq!(app.list_state, Some(0));
    assert_eq!(app.preview_scroll, 0);
}

#[test]
fn moving_updates_preview() {
    let mut app = started();
    app.preview_scroll = 9;
    match app.move_down() {
        Action::PreviewFile { path, ext, read } => {
            assert_eq!(path, "/home/ann/notes.txt");
            assert_eq!(ext, "txt");
            assert_eq!(read, FileRead::Head);
        }
        _ => panic!("expected a file preview"),
    }
    assert_eq!(app.selected, 1);
    assert_eq!(app.preview_scroll, 0);
    app.file_preview_loaded("/home/ann/notes.txt", "txt", &FileData::Head(b"hi".to_vec()));
    assert_eq!(app.preview_content, "hi");
    assert!(matches!(app.move_down(), Action::Nothing));
    assert_eq!(app.selected, 2);
    assert_eq!(app.preview_content, "\u{f02e9}  Images\n\n/home/ann/pic.png");
    assert!(matches!(app.move_down(), Action::Nothing));
    assert_eq!(app.selected, 2);
    assert!(matches!(app.move_up(), Action::PreviewFile { .. }));
    assert_eq!(app.selected, 1);
    assert_eq!(app.list_state, Some(1));
}

#[test]
fn reload_keeps_selection_in_range() {
    let mut app = started();
    app.selected = 2;
    let act = app.entries_loaded(&vec![item("only", false, 1)]);
    assert_eq!(app.selected, 0);
    assert_eq!(app.list_state, Some(0));
    assert!(matches!(act, Action::PreviewFile { .. }));
    let act = app.entries_loaded(&vec![]);
    assert!(matches!(act, Action::Nothing));
    assert_eq!(app.selected, 0);
    assert_eq!(app.list_state, None);
    assert_eq!(app.preview_content, "");
}

#[test]
fn opening_a_folder_enters_it() {
    let mut app = started();
    app.search_query = "do".to_string();
    match app.open_selected() {
        Action::ListDir { path } => assert_eq!(path, "/home/ann/docs"),
        _ => panic!("expected a listing"),
    }
    assert_eq!(app.current_path, "/home/ann/docs");
    assert_eq!(app.status_msg, "\u{1f4c2} /home/ann/docs");
    assert_eq!(app.selected, 0);
    assert_eq!(app.search_query, "");
}

#[test]
fn opening_a_file_asks_the_system() {
    let mut app = started();
    app.selected = 1;
    match app.open_selected() {
        Action::OpenFile { path } => assert_eq!(path, "/home/ann/notes.txt"),
        _ => panic!("expected opening"),
    }
    app.file_opened("/home/ann/notes.txt", &Ok(()));
    assert_eq!(app.status_msg, "Open: notes.txt");
}

#[test]
fn going_up_and_home() {
    let mut app = started();
    assert!(matches!(app.go_up(), Action::ListDir { .. }));
    assert_eq!(app.current_path, "/home");
    app.current_path = "/".to_string();
    assert!(matches!(app.go_up(), Action::Nothing));
    assert_eq!(app.current_path, "/");
    app.selected = 1;
    assert!(matches!(app.home_found("/home/ann".to_string()), Action::ListDir { .. }));
    assert_eq!(app.current_path, "/home/ann");
    assert_eq!(app.selected, 0);
}

#[test]
fn shortcuts_move_and_open() {
    let mut app = started();
    app.shortcut_down();
    assert_eq!(app.shortcut_selected, 1);
    assert_eq!(app.shortcut_state, Some(1));
    app.shortcut_down();
    assert_eq!(app.shortcut_selected, 1);
    match app.open_shortcut() {
        Action::CheckShortcut { path } => assert_eq!(path, "/"),
        _ => panic!("expected a check"),
    }
    app.shortcut_up();
    assert_eq!(app.shortcut_selected, 0);
    app.shortcut_up();
    assert_eq!(app.shortcut_selected, 0);
    app.focus = PanelFocus::Shortcuts;
    assert!(matches!(app.shortcut_checked("/gone".to_string(), false), Action::Nothing));
    assert_eq!(app.current_path, "/home/ann");
    assert!(matches!(app.shortcut_checked("/".to_string(), true), Action::ListDir { .. }));
    assert_eq!(app.current_path, "/");
    assert_eq!(app.focus, PanelFocus::FileList);
    app.shortcut_selected = 7;
    assert!(matches!(app.open_shortcut(), Action::Nothing));
}

#[test]
fn toggling_hidden_files() {
    let mut app = started();
    assert!(matches!(app.toggle_hidden(), Action::ListDir { .. }));
    assert!(app.show_hidden);
    assert_eq!(app.status_msg, "Приховані файли: показано");
    app.toggle_hidden();
    assert!(!app.show_hidden);
    assert_eq!(app.status_msg, "Приховані файли: сховано");
}

#[test]
fn deleting_an_entry() {
    let mut app = started();
    app.selected = 1;
    match app.delete_selected() {
        Action::Delete { path, is_dir, name } => {
            assert_eq!(path, "/home/ann/notes.txt");
            assert!(!is_dir);
            assert_eq!(name, "notes.txt");
        }
        _ => panic!("expected a deletion"),
    }
    assert!(matches!(app.delete_finished("notes.txt", &Ok(())), Action::ListDir { .. }));
    assert_eq!(app.status_msg, "\u{f058} Deleted: notes.txt");
    assert!(matches!(app.delete_finished("x", &Err("busy".to_string())), Action::Nothing));
    assert_eq!(app.status_msg, "\u{274c} Error: busy");
    app.selected = 5;
    assert!(matches!(app.delete_selected(), Action::Nothing));
}

#[test]
fn panels_cycle() {
    let mut app = started();
    app.next_panel();
    assert_eq!(app.focus, PanelFocus::Preview);
    app.next_panel();
    assert_eq!(app.focus, PanelFocus::Shortcuts);
    app.next_panel();
    assert_eq!(app.focus, PanelFocus::FileList);
    app.prev_panel();
    assert_eq!(app.focus, PanelFocus::Shortcuts);
    app.next_panel();
    assert_eq!(app.focus, PanelFocus::FileList);
}

#[test]
fn folder_preview_arrives() {
    let mut app = started();
    app.dir_preview_loaded("/home/ann/docs", &vec![item("a", false, 0)]);
    assert_eq!(app.preview_content, "\u{f07c} /home/ann/docs\n\n\u{f15b} a\n\nTotal: 1 elements");
}

#[test]
fn open_then_up_returns() {
    let mut app = started();
    app.current_path = "/home/ann/".to_string();
    assert!(matches!(app.open_selected(), Action::ListDir { .. }));
    assert_eq!(app.current_path, "/home/ann/docs");
    assert!(matches!(app.go_up(), Action::ListDir { .. }));
    assert_eq!(std::path::Path::new(&app.current_path), std::path::Path::new("/home/ann/"));
    assert_eq!(app.selected, 0);
    assert_eq!(app.search_query, "");
}

#[test]
fn open_then_up_returns_for_a_name_with_a_colon() {
    let mut app = started();
    let items = vec![item("a:b", true, 0)];
    app.entries_loaded(&items);
    assert!(matches!(app.open_selected(), Action::ListDir { .. }));
    assert!(app.current_path.ends_with("a:b"));
    assert!(matches!(app.go_up(), Action::ListDir { .. }));
    assert_eq!(std::path::Path::new(&app.current_path), std::path::Path::new("/home/ann"));
    assert_eq!(app.selected, 0);
    assert_eq!(app.search_query, "");
}
