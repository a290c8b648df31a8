//! The values that the browser shows and works on.
use vstd::prelude::*;

verus! {

/// The pane that has the keyboard focus.
#[derive(Debug, Clone, Copy, PartialEq, Eq, Structural)]
pub enum PanelFocus {
    Shortcuts,
    FileList,
    Preview,
}

/// One line of the file list.
#[derive(Debug, Clone)]
pub struct FileEntry {
    pub name: String,
    pub is_dir: bool,
    pub size: u64,
    pub extension: String,
}

/// A `FileEntry` as mathematical values.
pub struct EntryView {
    pub name: Seq<char>,
    pub is_dir: bool,
    pub size: u64,
    pub extension: Seq<char>,
}

impl View for FileEntry {
    type V = EntryView;

    open spec fn view(&self) -> EntryView {
        EntryView { name: self.name@, is_dir: self.is_dir, size: self.size, extension: self.extension@ }
    }
}

/// A mounted volume offered beside the shortcuts.
#[derive(Debug)]
pub struct DiskInfo {
    pub name: String,
    pub label: String,
}

/// One directory entry as the file system reports it: its name, whether
/// it is a directory, and its length in bytes.
#[derive(Debug)]
pub struct DirItem {
    pub name: String,
    pub is_dir: bool,
    pub len: u64,
}

/// A `DirItem` as mathematical values.
pub struct ItemView {
    pub name: Seq<char>,
    pub is_dir: bool,
    pub len: u64,
}

impl View for DirItem {
    type V = ItemView;

    open spec fn view(&self) -> ItemView {
        ItemView { name: self.name@, is_dir: self.is_dir, len: self.len }
    }
}

/// The views of a list of file entries.
pub open spec fn entry_views(v: Seq<FileEntry>) -> Seq<EntryView> {
    v.map_values(|e: FileEntry| e@)
}

/// The views of a list of directory items.
pub open spec fn item_views(v: Seq<DirItem>) -> Seq<ItemView> {
    v.map_values(|e: DirItem| e@)
}

} // verus!
