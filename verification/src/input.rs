//! What each key does to the browser.
use vstd::prelude::*;
use crate::app::{
    Action, ActionView, App, AppView, delete_request, down_step, move_up_step, next_focus, open_step,
    prev_focus, reload_request, shortcut_down_step, shortcut_request, shortcut_up_step, toggle_step,
    up_step,
};
use crate::text::{chars_of, push_char, string_of};
use crate::types::PanelFocus;

verus! {

/// A key as the browser distinguishes keys.
#[derive(Debug, Clone, Copy, PartialEq, Eq, Structural)]
pub enum Key {
    Char(char),
    Tab,
    BackTab,
    Up,
    Down,
    Left,
    Right,
    PageUp,
    PageDown,
    Home,
    Enter,
    Backspace,
    Esc,
    F(u8),
    Other,
}

/// `x + d`, or the largest `u16` when that is larger.
pub open spec fn sat_add(x: u16, d: u16) -> u16 {
    if x + d > u16::MAX { u16::MAX } else { (x + d) as u16 }
}

/// `x - d`, or 0 when that is negative.
pub open spec fn sat_sub(x: u16, d: u16) -> u16 {
    if x < d { 0 } else { (x - d) as u16 }
}

/// `n` moves down of the file list, as far as it reaches; the action is
/// that of the last move made (`act` if none).
pub open spec fn moves_down(a: AppView, n: nat, act: ActionView) -> (AppView, ActionView)
    decreases n,
{
    if n == 0 {
        (a, act)
    } else if a.entries.len() > 0 {
        let s = down_step(a);
        moves_down(s.0, (n - 1) as nat, s.1)
    } else {
        moves_down(a, (n - 1) as nat, act)
    }
}

/// `n` moves up of the file list, as far as it reaches; the action is
/// that of the last move made (`act` if none).
pub open spec fn moves_up(a: AppView, n: nat, act: ActionView) -> (AppView, ActionView)
    decreases n,
{
    if n == 0 {
        (a, act)
    } else if a.selected > 0 {
        let s = move_up_step(a);
        moves_up(s.0, (n - 1) as nat, s.1)
    } else {
        moves_up(a, (n - 1) as nat, act)
    }
}

/// The search query after a key while searching, and listing again for
/// every key that changes the search.
pub open spec fn search_key_step(a: AppView, key: Key) -> (AppView, ActionView) {
    match key {
        Key::Esc => {
            let b = AppView { search_mode: false, search_query: Seq::empty(), ..a };
            (b, reload_request(b))
        },
        Key::Enter => {
            let b = AppView { search_mode: false, ..a };
            (b, reload_request(b))
        },
        Key::Backspace => {
            let q = if a.search_query.len() > 0 { a.search_query.drop_last() } else { a.search_query };
            let b = AppView { search_query: q, ..a };
            (b, reload_request(b))
        },
        Key::Char(c) => {
            let b = AppView { search_query: a.search_query.push(c), ..a };
            (b, reload_request(b))
        },
        _ => (a, ActionView::Nothing),
    }
}

/// A move down: the file list's selection, the shortcut selection, or
/// the preview's scroll by 3 lines, by the focused pane.
pub open spec fn down_key(a: AppView) -> (AppView, ActionView) {
    match a.focus {
        PanelFocus::FileList => down_step(a),
        PanelFocus::Shortcuts => (shortcut_down_step(a), ActionView::Nothing),
        PanelFocus::Preview => (AppView { preview_scroll: sat_add(a.preview_scroll, 3), ..a }, ActionView::Nothing),
    }
}

/// A move up, by the focused pane.
pub open spec fn up_key(a: AppView) -> (AppView, ActionView) {
    match a.focus {
        PanelFocus::FileList => move_up_step(a),
        PanelFocus::Shortcuts => (shortcut_up_step(a), ActionView::Nothing),
        PanelFocus::Preview => (AppView { preview_scroll: sat_sub(a.preview_scroll, 3), ..a }, ActionView::Nothing),
    }
}

/// A page down: 20 lines of preview, or 10 lines of the file list.
pub open spec fn page_down_key(a: AppView) -> (AppView, ActionView) {
    match a.focus {
        PanelFocus::Preview => (AppView { preview_scroll: sat_add(a.preview_scroll, 20), ..a }, ActionView::Nothing),
        PanelFocus::FileList => moves_down(a, 10, ActionView::Nothing),
        PanelFocus::Shortcuts => (a, ActionView::Nothing),
    }
}

/// A page up: 20 lines of preview, or 10 lines of the file list.
pub open spec fn page_up_key(a: AppView) -> (AppView, ActionView) {
    match a.focus {
        PanelFocus::Preview => (AppView { preview_scroll: sat_sub(a.preview_scroll, 20), ..a }, ActionView::Nothing),
        PanelFocus::FileList => moves_up(a, 10, ActionView::Nothing),
        PanelFocus::Shortcuts => (a, ActionView::Nothing),
    }
}

/// Opening: the selected entry, the selected shortcut, or back to the
/// file list from the preview.
pub open spec fn open_key(a: AppView) -> (AppView, ActionView) {
    match a.focus {
        PanelFocus::FileList => open_step(a),
        PanelFocus::Shortcuts => (a, shortcut_request(a)),
        PanelFocus::Preview => (AppView { focus: PanelFocus::FileList, ..a }, ActionView::Nothing),
    }
}

/// Going back: to the parent folder, or to the file list from another pane.
pub open spec fn back_key(a: AppView) -> (AppView, ActionView) {
    match a.focus {
        PanelFocus::FileList => up_step(a),
        _ => (AppView { focus: PanelFocus::FileList, ..a }, ActionView::Nothing),
    }
}

/// Listing again, with a message.
pub open spec fn reload_key(a: AppView) -> (AppView, ActionView) {
    let b = AppView { status_msg: "\u{f058} Reloaded"@, ..a };
    (b, reload_request(b))
}

/// What a character key does outside search.
pub open spec fn char_key(a: AppView, c: char, ctrl: bool) -> (AppView, ActionView) {
    if c == 'q' || (c == 'c' && ctrl) {
        (a, ActionView::Quit)
    } else if c == 'j' {
        down_key(a)
    } else if c == 'k' {
        up_key(a)
    } else if c == 'l' {
        open_key(a)
    } else if c == 'h' {
        back_key(a)
    } else if c == '~' {
        (a, ActionView::FindHome)
    } else if c == '.' {
        toggle_step(a)
    } else if c == '/' {
        (AppView { search_mode: true, search_query: Seq::empty(), focus: PanelFocus::FileList, ..a }, ActionView::Nothing)
    } else if c == 'd' {
        (AppView { status_msg: "\u{26a0} Shift + D to delete"@, ..a }, ActionView::Nothing)
    } else if c == 'D' {
        (a, delete_request(a))
    } else if c == 'r' {
        reload_key(a)
    } else {
        (a, ActionView::Nothing)
    }
}

/// What a key does; `ctrl` tells whether Control was held.
pub open spec fn key_step(a: AppView, key: Key, ctrl: bool) -> (AppView, ActionView) {
    if a.search_mode {
        search_key_step(a, key)
    } else {
        match key {
            Key::Char(c) => char_key(a, c, ctrl),
            Key::Tab => (AppView { focus: next_focus(a.focus), ..a }, ActionView::Nothing),
            Key::BackTab => (AppView { focus: prev_focus(a.focus), ..a }, ActionView::Nothing),
            Key::Down => down_key(a),
            Key::Up => up_key(a),
            Key::PageDown => page_down_key(a),
            Key::PageUp => page_up_key(a),
            Key::Enter | Key::Right => open_key(a),
            Key::Backspace | Key::Left => back_key(a),
            Key::Home => (a, ActionView::FindHome),
            Key::F(n) => if n == 5 { reload_key(a) } else { (a, ActionView::Nothing) },
            _ => (a, ActionView::Nothing),
        }
    }
}

fn drop_last_char(s: &String) -> (r: String)
    ensures
        r@ == (if s@.len() > 0 { s@.drop_last() } else { s@ }),
{
    let mut v = chars_of(s.as_str());
    if v.len() > 0 {
        v.pop();
    }
    string_of(&v)
}

fn add_scroll(x: u16, d: u16) -> (r: u16)
    ensures
        r == sat_add(x, d),
{
    if x > u16::MAX - d { u16::MAX } else { x + d }
}

fn sub_scroll(x: u16, d: u16) -> (r: u16)
    ensures
        r == sat_sub(x, d),
{
    if x < d { 0 } else { x - d }
}

/// The number of lines of the shortcut pane fits in a `usize`.
pub open spec fn shortcut_count_fits(app: &App) -> bool {
    app.shortcuts@.len() + app.disks@.len() <= usize::MAX
}

fn key_down(app: &mut App) -> (act: Action)
    requires
        shortcut_count_fits(old(app)),
    ensures
        final(app)@ == down_key(old(app)@).0,
        act@ == down_key(old(app)@).1,
{
    match app.focus {
        PanelFocus::FileList => app.move_down(),
        PanelFocus::Shortcuts => {
            app.shortcut_down();
            Action::Nothing
        },
        PanelFocus::Preview => {
            app.preview_scroll = add_scroll(app.preview_scroll, 3);
            proof {
                assert(app@ =~= down_key(old(app)@).0);
            }
            Action::Nothing
        },
    }
}

fn key_up(app: &mut App) -> (act: Action)
    ensures
        final(app)@ == up_key(old(app)@).0,
        act@ == up_key(old(app)@).1,
{
    match app.focus {
        PanelFocus::FileList => app.move_up(),
        PanelFocus::Shortcuts => {
            app.shortcut_up();
            Action::Nothing
        },
        PanelFocus::Preview => {
            app.preview_scroll = sub_scroll(app.preview_scroll, 3);
            proof {
                assert(app@ =~= up_key(old(app)@).0);
            }
            Action::Nothing
        },
    }
}

fn key_page_down(app: &mut App) -> (act: Action)
    ensures
        final(app)@ == page_down_key(old(app)@).0,
        act@ == page_down_key(old(app)@).1,
{
    match app.focus {
        PanelFocus::Preview => {
            app.preview_scroll = add_scroll(app.preview_scroll, 20);
            proof {
                assert(app@ =~= page_down_key(old(app)@).0);
            }
            Action::Nothing
        },
        PanelFocus::FileList => {
            let ghost start = app@;
            let mut act = Action::Nothing;
            let mut k: usize = 0;
            while k < 10
                invariant
                    k <= 10,
                    moves_down(app@, (10 - k) as nat, act@) == moves_down(start, 10, ActionView::Nothing),
                decreases 10 - k,
            {
                if app.entries.len() > 0 {
                    act = app.move_down();
                }
                k += 1;
            }
            act
        },
        PanelFocus::Shortcuts => Action::Nothing,
    }
}

fn key_page_up(app: &mut App) -> (act: Action)
    ensures
        final(app)@ == page_up_key(old(app)@).0,
        act@ == page_up_key(old(app)@).1,
{
    match app.focus {
        PanelFocus::Preview => {
            app.preview_scroll = sub_scroll(app.preview_scroll, 20);
            proof {
                assert(app@ =~= page_up_key(old(app)@).0);
            }
            Action::Nothing
        },
        PanelFocus::FileList => {
            let ghost start = app@;
            let mut act = Action::Nothing;
            let mut k: usize = 0;
            while k < 10
                invariant
                    k <= 10,
                    moves_up(app@, (10 - k) as nat, act@) == moves_up(start, 10, ActionView::Nothing),
                decreases 10 - k,
            {
                if app.selected > 0 {
                    act = app.move_up();
                }
                k += 1;
            }
            act
        },
        PanelFocus::Shortcuts => Action::Nothing,
    }
}

fn key_open(app: &mut App) -> (act: Action)
    ensures
        final(app)@ == open_key(old(app)@).0,
        act@ == open_key(old(app)@).1,
{
    match app.focus {
        PanelFocus::FileList => app.open_selected(),
        PanelFocus::Shortcuts => app.open_shortcut(),
        PanelFocus::Preview => {
            app.focus = PanelFocus::FileList;
            proof {
                assert(app@ =~= open_key(old(app)@).0);
            }
            Action::Nothing
        },
    }
}

fn key_back(app: &mut App) -> (act: Action)
    ensures
        final(app)@ == back_key(old(app)@).0,
        act@ == back_key(old(app)@).1,
{
    match app.focus {
        PanelFocus::FileList => app.go_up(),
        _ => {
            app.focus = PanelFocus::FileList;
            proof {
                assert(app@ =~= back_key(old(app)@).0);
            }
            Action::Nothing
        },
    }
}

fn key_reload(app: &mut App) -> (act: Action)
    ensures
        final(app)@ == reload_key(old(app)@).0,
        act@ == reload_key(old(app)@).1,
{
    app.status_msg = String::from_str("\u{f058} Reloaded");
    proof {
        assert(app@ =~= reload_key(old(app)@).0);
    }
    app.reload_entries()
}

fn key_char(app: &mut App, c: char, ctrl: bool) -> (act: Action)
    requires
        shortcut_count_fits(old(app)),
    ensures
        final(app)@ == char_key(old(app)@, c, ctrl).0,
        act@ == char_key(old(app)@, c, ctrl).1,
{
    if c == 'q' || (c == 'c' && ctrl) {
        Action::Quit
    } else if c == 'j' {
        key_down(app)
    } else if c == 'k' {
        key_up(app)
    } else if c == 'l' {
        key_open(app)
    } else if c == 'h' {
        key_back(app)
    } else if c == '~' {
        Action::FindHome
    } else if c == '.' {
        app.toggle_hidden()
    } else if c == '/' {
        app.search_mode = true;
        app.search_query = String::new();
        app.focus = PanelFocus::FileList;
        proof {
            assert(app@ =~= char_key(old(app)@, c, ctrl).0);
        }
        Action::Nothing
    } else if c == 'd' {
        app.status_msg = String::from_str("\u{26a0} Shift + D to delete");
        proof {
            assert(app@ =~= char_key(old(app)@, c, ctrl).0);
        }
        Action::Nothing
    } else if c == 'D' {
        app.delete_selected()
    } else if c == 'r' {
        key_reload(app)
    } else {
        Action::Nothing
    }
}

/// Handles a key while searching: characters extend the query,
/// Backspace shortens it, Enter ends the search, Esc ends and drops it.
pub fn handle_search_key(app: &mut App, key: Key) -> (act: Action)
    ensures
        final(app)@ == search_key_step(old(app)@, key).0,
        act@ == search_key_step(old(app)@, key).1,
{
    match key {
        Key::Esc => {
            app.search_mode = false;
            app.search_query = String::new();
            proof {
                assert(app@ =~= search_key_step(old(app)@, key).0);
            }
            app.reload_entries()
        },
        Key::Enter => {
            app.search_mode = false;
            proof {
                assert(app@ =~= search_key_step(old(app)@, key).0);
            }
            app.reload_entries()
        },
        Key::Backspace => {
            app.search_query = drop_last_char(&app.search_query);
            proof {
                assert(app@ =~= search_key_step(old(app)@, key).0);
            }
            app.reload_entries()
        },
        Key::Char(c) => {
            push_char(&mut app.search_query, c);
            proof {
                assert(app@ =~= search_key_step(old(app)@, key).0);
            }
            app.reload_entries()
        },
        _ => Action::Nothing,
    }
}

/// Handles a key; `ctrl` tells whether Control was held. The returned
/// action is `Quit` when the browser should close.
pub fn handle_key(app: &mut App, key: Key, ctrl: bool) -> (act: Action)
    requires
        shortcut_count_fits(old(app)),
    ensures
        final(app)@ == key_step(old(app)@, key, ctrl).0,
        act@ == key_step(old(app)@, key, ctrl).1,
{
    if app.search_mode {
        return handle_search_key(app, key);
    }
    match key {
        Key::Char(c) => key_char(app, c, ctrl),
        Key::Tab => {
            app.next_panel();
            Action::Nothing
        },
        Key::BackTab => {
            app.prev_panel();
            Action::Nothing
        },
        Key::Down => key_down(app),
        Key::Up => key_up(app),
        Key::PageDown => key_page_down(app),
        Key::PageUp => key_page_up(app),
        Key::Enter | Key::Right => key_open(app),
        Key::Backspace | Key::Left => key_back(app),
        Key::Home => Action::FindHome,
        Key::F(n) => if n == 5 { key_reload(app) } else { Action::Nothing },
        _ => Action::Nothing,
    }
}

} // verus!
