use orbitfm::app::{Action, App};
use orbitfm::input::{handle_key, handle_search_key, Key};
use orbitfm::types::{DirItem, PanelFocus};

fn app_with(n: usize) -> App {
    let (mut app, _) = App::new("/h".to_string(), vec!["/h".to_string(), "/h/Music".to_string()], vec![]);
    let items: Vec<DirItem> = (0..n).map(|i| DirItem { name: format!("f{:02}.txt", i), is_dir: false, len: 1 }).collect();
    app.entries_loaded(&items);
    app
}

#[test]
fn quit_keys() {
    let mut app = app_with(3);
    assert!(matches!(handle_key(&mut app, Key::Char('q'), false), Action::Quit));
    assert!(matches!(handle_key(&mut app, Key::Char('c'), true), Action::Quit));
    assert!(matches!(handle_key(&mut app, Key::Char('c'), false), Action::Nothing));
    app.search_mode = true;
    assert!(matches!(handle_key(&mut app, Key::Char('q'), false), Action::ListDir { .. }));
    assert_eq!(app.search_query, "q");
}

#[test]
fn arrows_move_by_focus() {
    let mut app = app_with(3);
    handle_key(&mut app, Key::Down, false);
    handle_key(&mut app, Key::Char('j'), false);
    assert_eq!(app.selected, 2);
    handle_key(&mut app, Key::Up, false);
    assert_eq!(app.selected, 1);
    handle_key(&mut app, Key::Tab, false);
    assert_eq!(app.focus, PanelFocus::Preview);
    handle_key(&mut app, Key::Down, false);
    handle_key(&mut app, Key::Down, false);
    assert_eq!(app.preview_scroll, 6);
    handle_key(&mut app, Key::Char('k'), false);
    assert_eq!(app.preview_scroll, 3);
    handle_key(&mut app, Key::PageUp, false);
    assert_eq!(app.preview_scroll, 0);
    app.preview_scroll = u16::MAX - 5;
    handle_key(&mut app, Key::PageDown, false);
    assert_eq!(app.preview_scroll, u16::MAX);
    handle_key(&mut app, Key::BackTab, false);
    assert_eq!(app.focus, PanelFocus::FileList);
    handle_key(&mut app, Key::BackTab, false);
    assert_eq!(app.focus, PanelFocus::Shortcuts);
    handle_key(&mut app, Key::Down, false);
    assert_eq!(app.shortcut_selected, 1);
    match handle_key(&mut app, Key::Enter, false) {
        Action::CheckShortcut { path } => assert_eq!(path, "/h/Music"),
        _ => panic!("expected a check"),
    }
    handle_key(&mut app, Key::Left, false);
    assert_eq!(app.focus, PanelFocus::FileList);
}

#[test]
fn paging_moves_ten_lines() {
    let mut app = app_with(25);
    match handle_key(&mut app, Key::PageDown, false) {
        Action::PreviewFile { path, .. } => assert_eq!(path, "/h/f10.txt"),
        _ => panic!("expected a preview"),
    }
    assert_eq!(app.selected, 10);
    handle_key(&mut app, Key::PageDown, false);
    handle_key(&mut app, Key::PageDown, false);
    assert_eq!(app.selected, 24);
    handle_key(&mut app, Key::PageUp, false);
    assert_eq!(app.selected, 14);
    app.selected = 3;
    match handle_key(&mut app, Key::PageUp, false) {
        Action::PreviewFile { path, .. } => assert_eq!(path, "/h/f00.txt"),
        _ => panic!("expected a preview"),
    }
    assert_eq!(app.selected, 0);
    assert!(matches!(handle_key(&mut app, Key::PageUp, false), Action::Nothing));
}

#[test]
fn search_keys() {
    let mut app = app_with(2);
    handle_key(&mut app, Key::Char('/'), false);
    assert!(app.search_mode);
    assert_eq!(app.focus, PanelFocus::FileList);
    handle_key(&mut app, Key::Char('a'), false);
    assert!(matches!(handle_key(&mut app, Key::Char('b'), false), Action::ListDir { .. }));
    assert_eq!(app.search_query, "ab");
    handle_search_key(&mut app, Key::Backspace);
    assert_eq!(app.search_query, "a");
    handle_search_key(&mut app, Key::Enter);
    assert!(!app.search_mode);
    assert_eq!(app.search_query, "a");
    handle_key(&mut app, Key::Char('/'), false);
    handle_key(&mut app, Key::Char('x'), false);
    handle_key(&mut app, Key::Esc, false);
    assert!(!app.search_mode);
    assert_eq!(app.search_query, "");
    assert!(matches!(handle_search_key(&mut app, Key::Tab), Action::Nothing));
    app.search_query = String::new();
    app.search_mode = true;
    handle_key(&mut app, Key::Backspace, false);
    assert_eq!(app.search_query, "");
}

#[test]
fn other_commands() {
    let mut app = app_with(2);
    assert!(matches!(handle_key(&mut app, Key::Char('~'), false), Action::FindHome));
    assert!(matches!(handle_key(&mut app, Key::Home, false), Action::FindHome));
    handle_key(&mut app, Key::Char('d'), false);
    assert_eq!(app.status_msg, "\u{26a0} Shift + D to delete");
    assert!(matches!(handle_key(&mut app, Key::Char('D'), false), Action::Delete { .. }));
    assert!(matches!(handle_key(&mut app, Key::F(5), false), Action::ListDir { .. }));
    assert_eq!(app.status_msg, "\u{f058} Reloaded");
    assert!(matches!(handle_key(&mut app, Key::F(4), false), Action::Nothing));
    assert!(matches!(handle_key(&mut app, Key::Char('.'), false), Action::ListDir { .. }));
    assert!(app.show_hidden);
    assert!(matches!(handle_key(&mut app, Key::Char('l'), false), Action::OpenFile { .. }));
    assert!(matches!(handle_key(&mut app, Key::Backspace, false), Action::ListDir { .. }));
    assert_eq!(app.current_path, "/");
    assert!(matches!(handle_key(&mut app, Key::Other, false), Action::Nothing));
    app.focus = PanelFocus::Preview;
    handle_key(&mut app, Key::Right, false);
    assert_eq!(app.focus, PanelFocus::FileList);
}
