//! The browser's state and how each command changes it. Work on the file
//! system is not done here: a step returns the `Action` it needs, and the
//! caller hands back what the file system answered through the matching
//! method (`entries_loaded`, `dir_preview_loaded`, `file_preview_loaded`,
//! `file_opened`, `delete_finished`, `shortcut_checked`, `home_found`).
use vstd::prelude::*;
use crate::fs_utils::{
    DiskView, FileData, FileRead, dir_preview, dir_preview_lines, disk_views, file_preview,
    file_preview_text, file_read_for, image_ext, is_image_ext, join_lines, open_status,
    open_with_system, read_for, text_views,
};
use crate::listing::{listing, read_dir_entries, stably_sorted};
use crate::paths::{joined_path, one_component, parent_path, path_join, path_parent, same_path};
use crate::types::{DirItem, DiskInfo, EntryView, FileEntry, PanelFocus, entry_views, item_views};

verus! {

/// A piece of work on the file system that a step asks for.
pub enum Action {
    /// Nothing is needed.
    Nothing,
    /// Leave the program.
    Quit,
    /// List the folder `path` and hand the entries to `entries_loaded`.
    ListDir { path: String },
    /// List the folder `path` for its preview and hand the entries to
    /// `dir_preview_loaded`.
    PreviewDir { path: String },
    /// Read what `read` names of the file `path` and hand it to
    /// `file_preview_loaded`.
    PreviewFile { path: String, ext: String, read: FileRead },
    /// Ask the system to open `path` and hand the outcome to `file_opened`.
    OpenFile { path: String },
    /// Delete `path` (recursively if `is_dir`) and hand the outcome to
    /// `delete_finished`.
    Delete { path: String, is_dir: bool, name: String },
    /// Check whether `path` exists and hand the answer to `shortcut_checked`.
    CheckShortcut { path: String },
    /// Find the home directory and hand it to `home_found`.
    FindHome,
}

/// An `Action` as mathematical values.
pub enum ActionView {
    Nothing,
    Quit,
    ListDir { path: Seq<char> },
    PreviewDir { path: Seq<char> },
    PreviewFile { path: Seq<char>, ext: Seq<char>, read: FileRead },
    OpenFile { path: Seq<char> },
    Delete { path: Seq<char>, is_dir: bool, name: Seq<char> },
    CheckShortcut { path: Seq<char> },
    FindHome,
}

impl View for Action {
    type V = ActionView;

    open spec fn view(&self) -> ActionView {
        match self {
            Action::Nothing => ActionView::Nothing,
            Action::Quit => ActionView::Quit,
            Action::ListDir { path } => ActionView::ListDir { path: path@ },
            Action::PreviewDir { path } => ActionView::PreviewDir { path: path@ },
            Action::PreviewFile { path, ext, read } =>
                ActionView::PreviewFile { path: path@, ext: ext@, read: *read },
            Action::OpenFile { path } => ActionView::OpenFile { path: path@ },
            Action::Delete { path, is_dir, name } =>
                ActionView::Delete { path: path@, is_dir: *is_dir, name: name@ },
            Action::CheckShortcut { path } => ActionView::CheckShortcut { path: path@ },
            Action::FindHome => ActionView::FindHome,
        }
    }
}

/// The state of the browser.
pub struct App {
    /// The folder shown in the file list.
    pub current_path: String,
    /// The file list.
    pub entries: Vec<FileEntry>,
    /// The index of the selected line of the file list.
    pub selected: usize,
    /// The line that the file list highlights.
    pub list_state: Option<usize>,
    /// The pane with the keyboard focus.
    pub focus: PanelFocus,
    /// The shortcut folders.
    pub shortcuts: Vec<String>,
    /// The selected line of the shortcut pane (shortcuts, then volumes).
    pub shortcut_selected: usize,
    /// The line that the shortcut pane highlights.
    pub shortcut_state: Option<usize>,
    /// The volumes listed below the shortcuts.
    pub disks: Vec<DiskInfo>,
    /// The selected volume.
    pub disk_selected: usize,
    /// The text of the preview pane.
    pub preview_content: String,
    /// How far the preview pane is scrolled.
    pub preview_scroll: u16,
    /// The message in the info bar.
    pub status_msg: String,
    /// Whether typed characters go to the search query.
    pub search_mode: bool,
    /// The search query that filters the file list.
    pub search_query: String,
    /// Whether names starting with a dot are listed.
    pub show_hidden: bool,
}

/// An `App` as mathematical values.
#[verifier::ext_equal]
pub struct AppView {
    pub current_path: Seq<char>,
    pub entries: Seq<EntryView>,
    pub selected: usize,
    pub list_state: Option<usize>,
    pub focus: PanelFocus,
    pub shortcuts: Seq<Seq<char>>,
    pub shortcut_selected: usize,
    pub shortcut_state: Option<usize>,
    pub disks: Seq<DiskView>,
    pub disk_selected: usize,
    pub preview_content: Seq<char>,
    pub preview_scroll: u16,
    pub status_msg: Seq<char>,
    pub search_mode: bool,
    pub search_query: Seq<char>,
    pub show_hidden: bool,
}

impl View for App {
    type V = AppView;

    open spec fn view(&self) -> AppView {
        AppView {
            current_path: self.current_path@,
            entries: entry_views(self.entries@),
            selected: self.selected,
            list_state: self.list_state,
            focus: self.focus,
            shortcuts: text_views(self.shortcuts@),
            shortcut_selected: self.shortcut_selected,
            shortcut_state: self.shortcut_state,
            disks: disk_views(self.disks@),
            disk_selected: self.disk_selected,
            preview_content: self.preview_content@,
            preview_scroll: self.preview_scroll,
            status_msg: self.status_msg@,
            search_mode: self.search_mode,
            search_query: self.search_query@,
            show_hidden: self.show_hidden,
        }
    }
}

/// The help line shown when the browser starts.
pub open spec fn help_text() -> Seq<char> {
    "q:exit  enter:open  bs:back  tab:panel  .:hiden  /:search  D:delete  r:reload"@
}

/// The state right after start, in `home`, before its listing arrives.
pub open spec fn start_state(home: Seq<char>, shortcuts: Seq<Seq<char>>, disks: Seq<DiskView>) -> AppView {
    AppView {
        current_path: home,
        entries: Seq::empty(),
        selected: 0,
        list_state: Some(0),
        focus: PanelFocus::FileList,
        shortcuts,
        shortcut_selected: 0,
        shortcut_state: Some(0),
        disks,
        disk_selected: 0,
        preview_content: Seq::empty(),
        preview_scroll: 0,
        status_msg: help_text(),
        search_mode: false,
        search_query: Seq::empty(),
        show_hidden: false,
    }
}

/// The listing that a state asks for when it reloads: that of the
/// current folder (filtered by the state's settings when it arrives).
pub open spec fn reload_request(a: AppView) -> ActionView {
    ActionView::ListDir { path: a.current_path }
}

/// The preview text of an image at `path`.
pub open spec fn image_preview(path: Seq<char>) -> Seq<char> {
    "\u{f02e9}  Images\n\n"@ + path
}

/// Refreshing the preview: scroll to the top, and preview the selected
/// entry (images at once, folders and other files by asking for them),
/// or show nothing when no entry is selected.
pub open spec fn preview_step(a: AppView) -> (AppView, ActionView) {
    let a1 = AppView { preview_scroll: 0, ..a };
    if a.selected < a.entries.len() {
        let e = a.entries[a.selected as int];
        let path = joined_path(a.current_path, e.name);
        if e.is_dir {
            (a1, ActionView::PreviewDir { path })
        } else if is_image_ext(e.extension) {
            (AppView { preview_content: image_preview(path), ..a1 }, ActionView::Nothing)
        } else {
            (a1, ActionView::PreviewFile { path, ext: e.extension, read: read_for(e.extension) })
        }
    } else {
        (AppView { preview_content: Seq::empty(), ..a1 }, ActionView::Nothing)
    }
}

/// `sel` kept within a list of `len` lines (0 for an empty list).
pub open spec fn clamp_index(sel: usize, len: nat) -> usize {
    if len == 0 { 0 } else if sel < len { sel } else { (len - 1) as usize }
}

/// The state once the new file list `entries` has arrived, before the
/// preview is refreshed: the selection is kept within the list.
pub open spec fn loaded_state(a: AppView, entries: Seq<EntryView>) -> AppView {
    let sel = clamp_index(a.selected, entries.len());
    AppView {
        entries,
        selected: sel,
        list_state: if entries.len() == 0 { None } else { Some(sel) },
        ..a
    }
}

/// Entering a folder: it becomes the current one, the first line is
/// selected and the search query is dropped.
pub open spec fn enter_folder(a: AppView, path: Seq<char>) -> AppView {
    AppView { current_path: path, selected: 0, search_query: Seq::empty(), ..a }
}

/// Opening the selected entry: a folder is entered and listed, a file is
/// handed to the system.
pub open spec fn open_step(a: AppView) -> (AppView, ActionView) {
    if a.selected < a.entries.len() {
        let e = a.entries[a.selected as int];
        let path = joined_path(a.current_path, e.name);
        if e.is_dir {
            let b = AppView { status_msg: "\u{1f4c2} "@ + path, ..enter_folder(a, path) };
            (b, reload_request(b))
        } else {
            (a, ActionView::OpenFile { path })
        }
    } else {
        (a, ActionView::Nothing)
    }
}

/// Going to the parent folder, if there is one.
pub open spec fn up_step(a: AppView) -> (AppView, ActionView) {
    match parent_path(a.current_path) {
        Some(p) => {
            let b = enter_folder(a, p);
            (b, reload_request(b))
        },
        None => (a, ActionView::Nothing),
    }
}

/// Moving the selection one line down (it stays on the last line).
pub open spec fn down_step(a: AppView) -> (AppView, ActionView) {
    if a.entries.len() > 0 {
        let sel: usize = if a.selected + 1 < a.entries.len() { (a.selected + 1) as usize } else { (a.entries.len() - 1) as usize };
        preview_step(AppView { selected: sel, list_state: Some(sel), ..a })
    } else {
        (a, ActionView::Nothing)
    }
}

/// Moving the selection one line up (it stays on the first line).
pub open spec fn move_up_step(a: AppView) -> (AppView, ActionView) {
    if a.selected > 0 {
        let sel = (a.selected - 1) as usize;
        preview_step(AppView { selected: sel, list_state: Some(sel), ..a })
    } else {
        (a, ActionView::Nothing)
    }
}

/// The number of lines of the shortcut pane.
pub open spec fn shortcut_lines(a: AppView) -> nat {
    a.shortcuts.len() + a.disks.len()
}

/// Moving the shortcut selection one line down (it stays on the last).
pub open spec fn shortcut_down_step(a: AppView) -> AppView {
    let total = shortcut_lines(a);
    if total > 0 {
        let sel: usize = if a.shortcut_selected + 1 < total { (a.shortcut_selected + 1) as usize } else { (total - 1) as usize };
        AppView { shortcut_selected: sel, shortcut_state: Some(sel), ..a }
    } else {
        a
    }
}

/// Moving the shortcut selection one line up (it stays on the first).
pub open spec fn shortcut_up_step(a: AppView) -> AppView {
    if a.shortcut_selected > 0 {
        let sel = (a.shortcut_selected - 1) as usize;
        AppView { shortcut_selected: sel, shortcut_state: Some(sel), ..a }
    } else {
        a
    }
}

/// The folder of the selected shortcut line: a shortcut, then a volume.
pub open spec fn shortcut_target(a: AppView) -> Option<Seq<char>> {
    let i = a.shortcut_selected as int;
    if i < a.shortcuts.len() {
        Some(a.shortcuts[i])
    } else if i - a.shortcuts.len() < a.disks.len() {
        Some(a.disks[i - a.shortcuts.len()].name)
    } else {
        None
    }
}

/// Opening the selected shortcut asks whether its folder exists.
pub open spec fn shortcut_request(a: AppView) -> ActionView {
    match shortcut_target(a) {
        Some(p) => ActionView::CheckShortcut { path: p },
        None => ActionView::Nothing,
    }
}

/// A shortcut folder that exists is entered, listed and given the focus.
pub open spec fn shortcut_checked_step(a: AppView, path: Seq<char>, exists: bool) -> (AppView, ActionView) {
    if exists {
        let b = AppView { focus: PanelFocus::FileList, ..enter_folder(a, path) };
        (b, reload_request(b))
    } else {
        (a, ActionView::Nothing)
    }
}

/// The message after hidden files were shown or hidden.
pub open spec fn hidden_status(show_hidden: bool) -> Seq<char> {
    "Приховані файли: "@ + (if show_hidden { "показано"@ } else { "сховано"@ })
}

/// Showing or hiding hidden files, and listing again.
pub open spec fn toggle_step(a: AppView) -> (AppView, ActionView) {
    let b = AppView { show_hidden: !a.show_hidden, status_msg: hidden_status(!a.show_hidden), ..a };
    (b, reload_request(b))
}

/// Deleting the selected entry asks for it to be removed.
pub open spec fn delete_request(a: AppView) -> ActionView {
    if a.selected < a.entries.len() {
        let e = a.entries[a.selected as int];
        ActionView::Delete { path: joined_path(a.current_path, e.name), is_dir: e.is_dir, name: e.name }
    } else {
        ActionView::Nothing
    }
}

/// After a deletion: report it and list again, or report the error.
pub open spec fn delete_done_step(a: AppView, name: Seq<char>, outcome: Result<(), Seq<char>>) -> (AppView, ActionView) {
    match outcome {
        Ok(()) => {
            let b = AppView { status_msg: "\u{f058} Deleted: "@ + name, ..a };
            (b, reload_request(b))
        },
        Err(e) => (AppView { status_msg: "\u{274c} Error: "@ + e, ..a }, ActionView::Nothing),
    }
}

/// The pane after `f` when cycling forward.
pub open spec fn next_focus(f: PanelFocus) -> PanelFocus {
    match f {
        PanelFocus::Shortcuts => PanelFocus::FileList,
        PanelFocus::FileList => PanelFocus::Preview,
        PanelFocus::Preview => PanelFocus::Shortcuts,
    }
}

/// The pane before `f` when cycling backward.
pub open spec fn prev_focus(f: PanelFocus) -> PanelFocus {
    match f {
        PanelFocus::Shortcuts => PanelFocus::Preview,
        PanelFocus::FileList => PanelFocus::Shortcuts,
        PanelFocus::Preview => PanelFocus::FileList,
    }
}

/// Going home: the home folder becomes current, its first line selected.
pub open spec fn home_step(a: AppView, home: Seq<char>) -> (AppView, ActionView) {
    let b = AppView { current_path: home, selected: 0, ..a };
    (b, reload_request(b))
}

/// An error or an answer as mathematical values.
pub open spec fn outcome_view(outcome: Result<(), String>) -> Result<(), Seq<char>> {
    match outcome {
        Ok(()) => Ok(()),
        Err(e) => Err(e@),
    }
}

/// The selection stays on a line of its list, or at 0 when the list is
/// empty, in the file list and in the shortcut pane.
pub open spec fn selection_in_range(a: AppView) -> bool {
    &&& (a.entries.len() == 0 ==> a.selected == 0)
    &&& (a.entries.len() > 0 ==> a.selected < a.entries.len())
    &&& (shortcut_lines(a) == 0 ==> a.shortcut_selected == 0)
    &&& (shortcut_lines(a) > 0 ==> a.shortcut_selected < shortcut_lines(a))
}

fn copy_text(s: &String) -> (r: String)
    ensures
        r@ == s@,
{
    s.clone()
}

impl App {
    /// The browser in `home` with the given shortcut folders and volumes,
    /// and the listing of `home` that it asks for first.
    pub fn new(home: String, shortcuts: Vec<String>, disks: Vec<DiskInfo>) -> (res: (App, Action))
        ensures
            res.0@ == start_state(home@, text_views(shortcuts@), disk_views(disks@)),
            res.1@ == reload_request(res.0@),
            selection_in_range(res.0@),
    {
        let app = App {
            current_path: home,
            entries: Vec::new(),
            selected: 0,
            list_state: Some(0),
            focus: PanelFocus::FileList,
            shortcuts,
            shortcut_selected: 0,
            shortcut_state: Some(0),
            disks,
            disk_selected: 0,
            preview_content: String::new(),
            preview_scroll: 0,
            status_msg: String::from_str("q:exit  enter:open  bs:back  tab:panel  .:hiden  /:search  D:delete  r:reload"),
            search_mode: false,
            search_query: String::new(),
            show_hidden: false,
        };
        let act = app.reload_entries();
        proof {
            assert(app@ =~= start_state(home@, text_views(shortcuts@), disk_views(disks@)));
        }
        (app, act)
    }

    /// The listing of the current folder that a reload asks for.
    pub fn reload_entries(&self) -> (act: Action)
        ensures
            act@ == reload_request(self@),
    {
        Action::ListDir { path: copy_text(&self.current_path) }
    }

    /// Takes the entries of the current folder: the file list is rebuilt,
    /// the selection kept within it, and the preview refreshed.
    pub fn entries_loaded(&mut self, items: &Vec<DirItem>) -> (act: Action)
        ensures
            stably_sorted(final(self)@.entries, listing(item_views(items@), old(self)@.show_hidden, old(self)@.search_query)),
            final(self)@ == preview_step(loaded_state(old(self)@, final(self)@.entries)).0,
            act@ == preview_step(loaded_state(old(self)@, final(self)@.entries)).1,
    {
        let entries = read_dir_entries(items, self.show_hidden, self.search_query.as_str());
        let n = entries.len();
        let sel = if n == 0 { 0 } else if self.selected < n { self.selected } else { n - 1 };
        self.entries = entries;
        self.selected = sel;
        self.list_state = if n == 0 { None } else { Some(sel) };
        let ghost mid = self@;
        proof {
            assert(mid =~= loaded_state(old(self)@, mid.entries));
        }
        self.update_preview()
    }

    /// Refreshes the preview for the selected entry.
    pub fn update_preview(&mut self) -> (act: Action)
        ensures
            final(self)@ == preview_step(old(self)@).0,
            act@ == preview_step(old(self)@).1,
    {
        self.preview_scroll = 0;
        if self.selected < self.entries.len() {
            let path = path_join(self.current_path.as_str(), self.entries[self.selected].name.as_str());
            if self.entries[self.selected].is_dir {
                proof {
                    assert(self@ =~= preview_step(old(self)@).0);
                }
                Action::PreviewDir { path }
            } else if image_ext(self.entries[self.selected].extension.as_str()) {
                let mut text = String::from_str("\u{f02e9}  Images\n\n");
                text.append(path.as_str());
                self.preview_content = text;
                proof {
                    assert(self@ =~= preview_step(old(self)@).0);
                }
                Action::Nothing
            } else {
                let ext = copy_text(&self.entries[self.selected].extension);
                let read = file_read_for(ext.as_str());
                proof {
                    assert(self@ =~= preview_step(old(self)@).0);
                }
                Action::PreviewFile { path, ext, read }
            }
        } else {
            self.preview_content = String::new();
            proof {
                assert(self@ =~= preview_step(old(self)@).0);
            }
            Action::Nothing
        }
    }

    /// Takes the entries of the folder `path` for its preview.
    pub fn dir_preview_loaded(&mut self, path: &str, items: &Vec<DirItem>)
        ensures
            final(self)@ == (AppView {
                preview_content: join_lines(dir_preview_lines(path@, item_views(items@))),
                ..old(self)@
            }),
    {
        self.preview_content = dir_preview(path, items);
        proof {
            assert(self@ =~= (AppView {
                preview_content: join_lines(dir_preview_lines(path@, item_views(items@))),
                ..old(self)@
            }));
        }
    }

    /// Takes what was read of the file `path` (extension `ext`) for its preview.
    pub fn file_preview_loaded(&mut self, path: &str, ext: &str, data: &FileData)
        ensures
            final(self)@ == (AppView { preview_content: file_preview_text(path@, ext@, *data), ..old(self)@ }),
    {
        self.preview_content = file_preview(path, ext, data);
        proof {
            assert(self@ =~= (AppView { preview_content: file_preview_text(path@, ext@, *data), ..old(self)@ }));
        }
    }

    /// Opens the selected entry: enters a folder, or asks the system to
    /// open a file.
    pub fn open_selected(&mut self) -> (act: Action)
        ensures
            final(self)@ == open_step(old(self)@).0,
            act@ == open_step(old(self)@).1,
            old(self).selected < old(self).entries@.len() && old(self).entries@[old(self).selected as int].is_dir
                && one_component(old(self).entries@[old(self).selected as int].name@) ==>
                parent_path(final(self)@.current_path) is Some
                && same_path(parent_path(final(self)@.current_path)->0, old(self)@.current_path),
    {
        if self.selected < self.entries.len() {
            let path = path_join(self.current_path.as_str(), self.entries[self.selected].name.as_str());
            if self.entries[self.selected].is_dir {
                let mut status = String::from_str("\u{1f4c2} ");
                status.append(path.as_str());
                self.current_path = path;
                self.selected = 0;
                self.search_query = String::new();
                self.status_msg = status;
                proof {
                    assert(self@ =~= open_step(old(self)@).0);
                }
                self.reload_entries()
            } else {
                Action::OpenFile { path }
            }
        } else {
            Action::Nothing
        }
    }

    /// Takes the outcome of asking the system to open `path`.
    pub fn file_opened(&mut self, path: &str, outcome: &Result<(), String>)
        ensures
            final(self)@ == (AppView { status_msg: open_status(path@, outcome_view(*outcome)), ..old(self)@ }),
    {
        open_with_system(path, outcome, &mut self.status_msg);
        proof {
            assert(self@ =~= (AppView { status_msg: open_status(path@, outcome_view(*outcome)), ..old(self)@ }));
        }
    }

    /// Goes to the parent folder, if there is one.
    pub fn go_up(&mut self) -> (act: Action)
        ensures
            final(self)@ == up_step(old(self)@).0,
            act@ == up_step(old(self)@).1,
    {
        match path_parent(self.current_path.as_str()) {
            Some(parent) => {
                self.current_path = parent;
                self.selected = 0;
                self.search_query = String::new();
                proof {
                    assert(self@ =~= up_step(old(self)@).0);
                }
                self.reload_entries()
            },
            None => Action::Nothing,
        }
    }

    /// Takes the home folder: it becomes current, its first line selected.
    pub fn home_found(&mut self, home: String) -> (act: Action)
        ensures
            final(self)@ == home_step(old(self)@, home@).0,
            act@ == home_step(old(self)@, home@).1,
    {
        self.current_path = home;
        self.selected = 0;
        proof {
            assert(self@ =~= home_step(old(self)@, home@).0);
        }
        self.reload_entries()
    }

    /// Moves the selection one line down.
    pub fn move_down(&mut self) -> (act: Action)
        ensures
            final(self)@ == down_step(old(self)@).0,
            act@ == down_step(old(self)@).1,
    {
        let n = self.entries.len();
        if n > 0 {
            let sel = if self.selected < n - 1 { self.selected + 1 } else { n - 1 };
            self.selected = sel;
            self.list_state = Some(sel);
            let ghost mid = self@;
            proof {
                assert(mid =~= (AppView { selected: sel, list_state: Some(sel), ..old(self)@ }));
            }
            self.update_preview()
        } else {
            Action::Nothing
        }
    }

    /// Moves the selection one line up.
    pub fn move_up(&mut self) -> (act: Action)
        ensures
            final(self)@ == move_up_step(old(self)@).0,
            act@ == move_up_step(old(self)@).1,
    {
        if self.selected > 0 {
            let sel = self.selected - 1;
            self.selected = sel;
            self.list_state = Some(sel);
            let ghost mid = self@;
            proof {
                assert(mid =~= (AppView { selected: sel, list_state: Some(sel), ..old(self)@ }));
            }
            self.update_preview()
        } else {
            Action::Nothing
        }
    }

    /// Moves the shortcut selection one line down.
    pub fn shortcut_down(&mut self)
        requires
            old(self).shortcuts@.len() + old(self).disks@.len() <= usize::MAX,
        ensures
            final(self)@ == shortcut_down_step(old(self)@),
    {
        let total = self.shortcuts.len() + self.disks.len();
        if total > 0 {
            let sel = if self.shortcut_selected < total - 1 { self.shortcut_selected + 1 } else { total - 1 };
            self.shortcut_selected = sel;
            self.shortcut_state = Some(sel);
        }
        proof {
            assert(self@ =~= shortcut_down_step(old(self)@));
        }
    }

    /// Moves the shortcut selection one line up.
    pub fn shortcut_up(&mut self)
        ensures
            final(self)@ == shortcut_up_step(old(self)@),
    {
        if self.shortcut_selected > 0 {
            let sel = self.shortcut_selected - 1;
            self.shortcut_selected = sel;
            self.shortcut_state = Some(sel);
        }
        proof {
            assert(self@ =~= shortcut_up_step(old(self)@));
        }
    }

    /// Opens the selected shortcut: asks whether its folder exists.
    pub fn open_shortcut(&self) -> (act: Action)
        ensures
            act@ == shortcut_request(self@),
    {
        let idx = self.shortcut_selected;
        if idx < self.shortcuts.len() {
            Action::CheckShortcut { path: copy_text(&self.shortcuts[idx]) }
        } else if idx - self.shortcuts.len() < self.disks.len() {
            Action::CheckShortcut { path: copy_text(&self.disks[idx - self.shortcuts.len()].name) }
        } else {
            Action::Nothing
        }
    }

    /// Takes whether the shortcut folder `path` exists: if so it is
    /// entered, listed and given the focus.
    pub fn shortcut_checked(&mut self, path: String, exists: bool) -> (act: Action)
        ensures
            final(self)@ == shortcut_checked_step(old(self)@, path@, exists).0,
            act@ == shortcut_checked_step(old(self)@, path@, exists).1,
    {
        if exists {
            self.current_path = path;
            self.selected = 0;
            self.search_query = String::new();
            self.focus = PanelFocus::FileList;
            proof {
                assert(self@ =~= shortcut_checked_step(old(self)@, path@, exists).0);
            }
            self.reload_entries()
        } else {
            Action::Nothing
        }
    }

    /// Shows or hides hidden files.
    pub fn toggle_hidden(&mut self) -> (act: Action)
        ensures
            final(self)@ == toggle_step(old(self)@).0,
            act@ == toggle_step(old(self)@).1,
    {
        self.show_hidden = !self.show_hidden;
        let mut status = String::from_str("Приховані файли: ");
        if self.show_hidden {
            status.append("показано");
        } else {
            status.append("сховано");
        }
        self.status_msg = status;
        proof {
            assert(self@ =~= toggle_step(old(self)@).0);
        }
        self.reload_entries()
    }

    /// Deletes the selected entry: asks for it to be removed.
    pub fn delete_selected(&self) -> (act: Action)
        ensures
            act@ == delete_request(self@),
    {
        if self.selected < self.entries.len() {
            let e = &self.entries[self.selected];
            let path = path_join(self.current_path.as_str(), e.name.as_str());
            Action::Delete { path, is_dir: e.is_dir, name: copy_text(&e.name) }
        } else {
            Action::Nothing
        }
    }

    /// Takes the outcome of deleting the entry `name`.
    pub fn delete_finished(&mut self, name: &str, outcome: &Result<(), String>) -> (act: Action)
        ensures
            final(self)@ == delete_done_step(old(self)@, name@, outcome_view(*outcome)).0,
            act@ == delete_done_step(old(self)@, name@, outcome_view(*outcome)).1,
    {
        match outcome {
            Ok(()) => {
                let mut status = String::from_str("\u{f058} Deleted: ");
                status.append(name);
                self.status_msg = status;
                proof {
                    assert(self@ =~= delete_done_step(old(self)@, name@, outcome_view(*outcome)).0);
                }
                self.reload_entries()
            },
            Err(e) => {
                let mut status = String::from_str("\u{274c} Error: ");
                status.append(e.as_str());
                self.status_msg = status;
                proof {
                    assert(self@ =~= delete_done_step(old(self)@, name@, outcome_view(*outcome)).0);
                }
                Action::Nothing
            },
        }
    }

    /// Gives the focus to the next pane.
    pub fn next_panel(&mut self)
        ensures
            final(self)@ == (AppView { focus: next_focus(old(self)@.focus), ..old(self)@ }),
    {
        self.focus = match self.focus {
            PanelFocus::Shortcuts => PanelFocus::FileList,
            PanelFocus::FileList => PanelFocus::Preview,
            PanelFocus::Preview => PanelFocus::Shortcuts,
        };
        proof {
            assert(self@ =~= (AppView { focus: next_focus(old(self)@.focus), ..old(self)@ }));
        }
    }

    /// Gives the focus to the previous pane.
    pub fn prev_panel(&mut self)
        ensures
            final(self)@ == (AppView { focus: prev_focus(old(self)@.focus), ..old(self)@ }),
    {
        self.focus = match self.focus {
            PanelFocus::Shortcuts => PanelFocus::Preview,
            PanelFocus::FileList => PanelFocus::Shortcuts,
            PanelFocus::Preview => PanelFocus::FileList,
        };
        proof {
            assert(self@ =~= (AppView { focus: prev_focus(old(self)@.focus), ..old(self)@ }));
        }
    }
}

} // verus!
