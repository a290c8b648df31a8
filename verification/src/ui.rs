//! The texts that the panes show: icons, labels, titles and bars.
use vstd::prelude::*;
use crate::app::{App, AppView};
use crate::fs_utils::{DiskView, same_text};
use crate::paths::{file_name_part, path_eq, path_file_name_part, same_path};
use crate::size::{format_size, size_text};
use crate::text::{decimal, push_char, push_decimal};
use crate::types::{EntryView, FileEntry, PanelFocus};

verus! {

/// The icon of a list entry: a folder, or by the file's extension.
pub open spec fn file_icon_text(is_dir: bool, ext: Seq<char>) -> Seq<char> {
    if is_dir {
        "\u{f07c}"@
    } else if ext == "rs"@ {
        "\u{e7a8}"@
    } else if ext == "py"@ {
        "\u{e73c}"@
    } else if ext == "js"@ || ext == "ts"@ {
        "\u{f2ee}"@
    } else if ext == "html"@ || ext == "htm"@ {
        "\u{e736}"@
    } else if ext == "css"@ {
        "\u{e749}"@
    } else if ext == "json"@ || ext == "toml"@ || ext == "yaml"@ || ext == "yml"@ {
        "\u{e60b}"@
    } else if ext == "md"@ || ext == "txt"@ || ext == "rst"@ {
        "\u{f15c}"@
    } else if ext == "png"@ || ext == "jpg"@ || ext == "jpeg"@ || ext == "gif"@ || ext == "bmp"@
        || ext == "svg"@ || ext == "webp"@ {
        "\u{f02e9}"@
    } else if ext == "mp4"@ || ext == "mkv"@ || ext == "avi"@ || ext == "mov"@ || ext == "webm"@ {
        "\u{f0567}"@
    } else if ext == "mp3"@ || ext == "flac"@ || ext == "ogg"@ || ext == "wav"@ {
        "\u{f0384}"@
    } else if ext == "zip"@ || ext == "tar"@ || ext == "gz"@ || ext == "bz2"@ || ext == "xz"@
        || ext == "7z"@ || ext == "rar"@ {
        "\u{f003c}"@
    } else if ext == "pdf"@ {
        "\u{f0226}"@
    } else if ext == "exe"@ || ext == "sh"@ || ext == "bat"@ || ext == "bin"@ {
        "\u{f471}"@
    } else if ext == "c"@ || ext == "cpp"@ || ext == "h"@ || ext == "hpp"@ {
        "\u{e61e}"@
    } else if ext == "go"@ {
        "\u{f07d3}"@
    } else if ext == "java"@ || ext == "class"@ {
        "\u{e256}"@
    } else if ext == "rb"@ {
        "\u{eb48}"@
    } else if ext == "php"@ {
        "\u{e73d}"@
    } else {
        "\u{f15c}"@
    }
}

/// The icon of a list entry: a folder, or by the file's extension.
pub fn file_icon(is_dir: bool, ext: &str) -> (icon: &'static str)
    ensures
        icon@ == file_icon_text(is_dir, ext@),
{
    if is_dir {
        "\u{f07c}"
    } else if same_text(ext, "rs") {
        "\u{e7a8}"
    } else if same_text(ext, "py") {
        "\u{e73c}"
    } else if same_text(ext, "js") || same_text(ext, "ts") {
        "\u{f2ee}"
    } else if same_text(ext, "html") || same_text(ext, "htm") {
        "\u{e736}"
    } else if same_text(ext, "css") {
        "\u{e749}"
    } else if same_text(ext, "json") || same_text(ext, "toml") || same_text(ext, "yaml") || same_text(ext, "yml") {
        "\u{e60b}"
    } else if same_text(ext, "md") || same_text(ext, "txt") || same_text(ext, "rst") {
        "\u{f15c}"
    } else if same_text(ext, "png") || same_text(ext, "jpg") || same_text(ext, "jpeg") || same_text(ext, "gif")
        || same_text(ext, "bmp") || same_text(ext, "svg") || same_text(ext, "webp") {
        "\u{f02e9}"
    } else if same_text(ext, "mp4") || same_text(ext, "mkv") || same_text(ext, "avi") || same_text(ext, "mov")
        || same_text(ext, "webm") {
        "\u{f0567}"
    } else if same_text(ext, "mp3") || same_text(ext, "flac") || same_text(ext, "ogg") || same_text(ext, "wav") {
        "\u{f0384}"
    } else if same_text(ext, "zip") || same_text(ext, "tar") || same_text(ext, "gz") || same_text(ext, "bz2")
        || same_text(ext, "xz") || same_text(ext, "7z") || same_text(ext, "rar") {
        "\u{f003c}"
    } else if same_text(ext, "pdf") {
        "\u{f0226}"
    } else if same_text(ext, "exe") || same_text(ext, "sh") || same_text(ext, "bat") || same_text(ext, "bin") {
        "\u{f471}"
    } else if same_text(ext, "c") || same_text(ext, "cpp") || same_text(ext, "h") || same_text(ext, "hpp") {
        "\u{e61e}"
    } else if same_text(ext, "go") {
        "\u{f07d3}"
    } else if same_text(ext, "java") || same_text(ext, "class") {
        "\u{e256}"
    } else if same_text(ext, "rb") {
        "\u{eb48}"
    } else if same_text(ext, "php") {
        "\u{e73d}"
    } else {
        "\u{f15c}"
    }
}

/// The icon of a shortcut folder: a house for home, else by its name.
pub open spec fn shortcut_icon_text(path: Seq<char>, home: Seq<char>) -> Seq<char> {
    let name = match file_name_part(path) {
        Some(n) => n,
        None => Seq::empty(),
    };
    if same_path(path, home) {
        "\u{f015}"@
    } else if name == "Desktop"@ {
        "\u{f07c0}"@
    } else if name == "Documents"@ {
        "\u{f0219}"@
    } else if name == "Downloads"@ {
        "\u{f024d}"@
    } else if name == "Pictures"@ {
        "\u{f03e}"@
    } else if name == "Music"@ {
        "\u{f0067}"@
    } else if name == "Videos"@ {
        "\u{f022b}"@
    } else {
        "\u{f07c}"@
    }
}

/// The icon of a shortcut folder: a house for home, else by its name.
pub fn shortcut_icon(path: &str, home: &str) -> (icon: &'static str)
    ensures
        icon@ == shortcut_icon_text(path@, home@),
        path@ == home@ ==> icon@ == "\u{f015}"@,
{
    let name = match path_file_name_part(path) {
        Some(n) => n,
        None => String::new(),
    };
    let n = name.as_str();
    if path_eq(path, home) {
        "\u{f015}"
    } else if same_text(n, "Desktop") {
        "\u{f07c0}"
    } else if same_text(n, "Documents") {
        "\u{f0219}"
    } else if same_text(n, "Downloads") {
        "\u{f024d}"
    } else if same_text(n, "Pictures") {
        "\u{f03e}"
    } else if same_text(n, "Music") {
        "\u{f0067}"
    } else if same_text(n, "Videos") {
        "\u{f022b}"
    } else {
        "\u{f07c}"
    }
}

/// The line of a shortcut folder: its icon, and "Home" or its name
/// ("?" when it has none).
pub open spec fn shortcut_label_text(path: Seq<char>, home: Seq<char>) -> Seq<char> {
    let name = if same_path(path, home) {
        "Home"@
    } else {
        match file_name_part(path) {
            Some(n) => n,
            None => "?"@,
        }
    };
    shortcut_icon_text(path, home) + seq![' '] + name
}

/// The line of a shortcut folder in the shortcut pane.
pub fn shortcut_label(path: &str, home: &str) -> (line: String)
    ensures
        line@ == shortcut_label_text(path@, home@),
        path@ == home@ ==> line@ == "\u{f015}"@ + seq![' '] + "Home"@,
{
    let mut s = String::from_str(shortcut_icon(path, home));
    push_char(&mut s, ' ');
    if path_eq(path, home) {
        s.append("Home");
    } else {
        match path_file_name_part(path) {
            Some(n) => s.append(n.as_str()),
            None => s.append("?"),
        }
    }
    s
}

/// `s` right-aligned in a field of `width` characters.
pub open spec fn pad_left(s: Seq<char>, width: nat) -> Seq<char> {
    if s.len() < width { Seq::new((width - s.len()) as nat, |i: int| ' ') + s } else { s }
}

/// The size column of a list line: blank for a folder, else the size
/// right-aligned in 8 characters, after two spaces.
pub open spec fn size_column_text(e: EntryView) -> Seq<char> {
    "  "@ + (if e.is_dir { "       "@ } else { pad_left(size_text(e.size as nat), 8) })
}

/// The size column of a list line.
pub fn size_column(e: &FileEntry) -> (text: String)
    ensures
        text@ == size_column_text(e@),
{
    let mut s = String::from_str("  ");
    if e.is_dir {
        s.append("       ");
    } else {
        let size = format_size(e.size);
        let ghost start = s@;
        let n = crate::text::chars_of(size.as_str()).len();
        let mut k: usize = n;
        while k < 8
            invariant
                n <= k <= 8 || (n > 8 && k == n),
                n == size@.len(),
                s@ == start + Seq::new((k - n) as nat, |i: int| ' '),
            decreases 8 - k,
        {
            push_char(&mut s, ' ');
            k += 1;
            proof {
                assert(s@ =~= start + Seq::new((k - n) as nat, |i: int| ' '));
            }
        }
        s.append(size.as_str());
        proof {
            if n >= 8 {
                assert(Seq::new((k - n) as nat, |i: int| ' ') =~= Seq::<char>::empty());
                assert(s@ =~= start + size@);
            } else {
                assert(s@ =~= start + pad_left(size@, 8));
            }
        }
    }
    s
}

/// The icon column of a list line: the icon and a space.
pub fn icon_column(e: &FileEntry) -> (text: String)
    ensures
        text@ == file_icon_text(e.is_dir, e.extension@) + seq![' '],
{
    let mut s = String::from_str(file_icon(e.is_dir, e.extension.as_str()));
    push_char(&mut s, ' ');
    s
}

/// The text of the path bar: the search prompt while searching, else the
/// current folder.
pub open spec fn path_bar_text(a: AppView) -> Seq<char> {
    if a.search_mode {
        "\u{1f50d} Пошук: "@ + a.search_query + "_"@
    } else {
        " "@ + a.current_path
    }
}

/// The text of the path bar.
pub fn path_bar(app: &App) -> (text: String)
    ensures
        text@ == path_bar_text(app@),
{
    if app.search_mode {
        let mut s = String::from_str("\u{1f50d} Пошук: ");
        s.append(app.search_query.as_str());
        s.append("_");
        s
    } else {
        let mut s = String::from_str(" ");
        s.append(app.current_path.as_str());
        s
    }
}

/// The title of the file list: the query and the number of matches
/// while searching with a query, else the number of entries.
pub open spec fn file_list_title_text(a: AppView) -> Seq<char> {
    if a.search_mode && a.search_query.len() > 0 {
        " \u{e68f} \""@ + a.search_query + "\" ("@ + decimal(a.entries.len()) + ") "@
    } else {
        " Files ("@ + decimal(a.entries.len()) + ") "@
    }
}

/// The title of the file list.
pub fn file_list_title(app: &App) -> (text: String)
    ensures
        text@ == file_list_title_text(app@),
{
    let n = app.entries.len() as u64;
    if app.search_mode && !app.search_query.as_str().is_empty() {
        let mut s = String::from_str(" \u{e68f} \"");
        s.append(app.search_query.as_str());
        s.append("\" (");
        push_decimal(&mut s, n);
        s.append(") ");
        s
    } else {
        let mut s = String::from_str(" Files (");
        push_decimal(&mut s, n);
        s.append(") ");
        s
    }
}

/// The title of the preview pane: the selected entry's icon and name.
pub open spec fn preview_title_text(a: AppView) -> Seq<char> {
    if a.selected < a.entries.len() {
        let e = a.entries[a.selected as int];
        " "@ + file_icon_text(e.is_dir, e.extension) + " "@ + e.name + " "@
    } else {
        " Перегляд "@
    }
}

/// The title of the preview pane.
pub fn preview_title(app: &App) -> (text: String)
    ensures
        text@ == preview_title_text(app@),
{
    if app.selected < app.entries.len() {
        let e = &app.entries[app.selected];
        let mut s = String::from_str(" ");
        s.append(file_icon(e.is_dir, e.extension.as_str()));
        s.append(" ");
        s.append(e.name.as_str());
        s.append(" ");
        s
    } else {
        String::from_str(" Перегляд ")
    }
}

/// The text of the info bar: the selected entry's icon, name and kind or
/// size, then the status message; only the message when none is selected.
pub open spec fn info_bar_text(a: AppView) -> Seq<char> {
    if a.selected < a.entries.len() {
        let e = a.entries[a.selected as int];
        let detail = if e.is_dir { "Catalogue"@ } else { size_text(e.size as nat) };
        "  "@ + file_icon_text(e.is_dir, e.extension) + " "@ + e.name + "  │  "@ + detail + "  │  "@ + a.status_msg
    } else {
        a.status_msg
    }
}

/// The text of the info bar.
pub fn info_bar(app: &App) -> (text: String)
    ensures
        text@ == info_bar_text(app@),
{
    if app.selected < app.entries.len() {
        let e = &app.entries[app.selected];
        let mut s = String::from_str("  ");
        s.append(file_icon(e.is_dir, e.extension.as_str()));
        s.append(" ");
        s.append(e.name.as_str());
        s.append("  │  ");
        if e.is_dir {
            s.append("Catalogue");
        } else {
            let size = format_size(e.size);
            s.append(size.as_str());
        }
        s.append("  │  ");
        s.append(app.status_msg.as_str());
        s
    } else {
        app.status_msg.clone()
    }
}

/// Whether the pane `panel` has the focus (its border is highlighted).
pub fn is_focused(app: &App, panel: PanelFocus) -> (b: bool)
    ensures
        b == (app.focus == panel),
{
    app.focus == panel
}


/// One line of a list pane: its text, and whether it is drawn dimmed.
pub struct PaneLine {
    pub text: String,
    pub dim: bool,
}

/// The views of a list of pane lines.
pub open spec fn pane_views(v: Seq<PaneLine>) -> Seq<(Seq<char>, bool)> {
    v.map_values(|l: PaneLine| (l.text@, l.dim))
}

/// The rule between the shortcuts and the volumes.
pub open spec fn separator_text() -> Seq<char> {
    "─────────────"@
}

/// The lines of the shortcut pane: one per shortcut folder, then, when
/// there are volumes, a dimmed rule and one line per volume.
pub open spec fn shortcut_pane_lines(a: AppView, home: Seq<char>) -> Seq<(Seq<char>, bool)> {
    a.shortcuts.map_values(|p: Seq<char>| (shortcut_label_text(p, home), false))
        + (if a.disks.len() > 0 { seq![(separator_text(), true)] } else { Seq::empty() })
        + a.disks.map_values(|d: DiskView| (d.label, false))
}

/// The lines of the shortcut pane for the home folder `home`.
pub fn shortcut_pane(app: &App, home: &str) -> (lines: Vec<PaneLine>)
    ensures
        pane_views(lines@) == shortcut_pane_lines(app@, home@),
{
    let ghost a = app@;
    let ghost shortcut_part = a.shortcuts.map_values(|p: Seq<char>| (shortcut_label_text(p, home@), false));
    let mut out: Vec<PaneLine> = Vec::new();
    let mut i: usize = 0;
    while i < app.shortcuts.len()
        invariant
            i <= app.shortcuts@.len(),
            a == app@,
            shortcut_part == a.shortcuts.map_values(|p: Seq<char>| (shortcut_label_text(p, home@), false)),
            pane_views(out@) == shortcut_part.take(i as int),
        decreases app.shortcuts@.len() - i,
    {
        let ghost before = out@;
        let text = shortcut_label(app.shortcuts[i].as_str(), home);
        out.push(PaneLine { text, dim: false });
        proof {
            assert(pane_views(out@) =~= pane_views(before).push(shortcut_part[i as int]));
            assert(shortcut_part.take(i + 1) =~= shortcut_part.take(i as int).push(shortcut_part[i as int]));
        }
        i += 1;
    }
    proof {
        assert(shortcut_part.take(i as int) =~= shortcut_part);
    }
    let ghost rule_part: Seq<(Seq<char>, bool)> = if a.disks.len() > 0 { seq![(separator_text(), true)] } else { Seq::empty() };
    if app.disks.len() > 0 {
        let ghost before = out@;
        out.push(PaneLine { text: String::from_str("─────────────"), dim: true });
        proof {
            assert(pane_views(out@) =~= pane_views(before).push((separator_text(), true)));
        }
    }
    proof {
        assert(pane_views(out@) =~= shortcut_part + rule_part);
    }
    let ghost head = shortcut_part + rule_part;
    let ghost disk_part = a.disks.map_values(|d: DiskView| (d.label, false));
    let mut j: usize = 0;
    while j < app.disks.len()
        invariant
            j <= app.disks@.len(),
            a == app@,
            disk_part == a.disks.map_values(|d: DiskView| (d.label, false)),
            pane_views(out@) == head + disk_part.take(j as int),
        decreases app.disks@.len() - j,
    {
        let ghost before = out@;
        out.push(PaneLine { text: app.disks[j].label.clone(), dim: false });
        proof {
            assert(pane_views(out@) =~= pane_views(before).push(disk_part[j as int]));
            assert(head + disk_part.take(j + 1) =~= (head + disk_part.take(j as int)).push(disk_part[j as int]));
        }
        j += 1;
    }
    proof {
        assert(disk_part.take(j as int) =~= disk_part);
    }
    out
}

/// One line of the file list: icon column, name, size column, and
/// whether it is a folder (drawn highlighted).
pub struct FileLine {
    pub icon: String,
    pub name: String,
    pub size: String,
    pub is_dir: bool,
}

/// The views of a list of file lines.
pub open spec fn file_line_views(v: Seq<FileLine>) -> Seq<(Seq<char>, Seq<char>, Seq<char>, bool)> {
    v.map_values(|l: FileLine| (l.icon@, l.name@, l.size@, l.is_dir))
}

/// The line of the file list for an entry.
pub open spec fn file_line_text(e: EntryView) -> (Seq<char>, Seq<char>, Seq<char>, bool) {
    (file_icon_text(e.is_dir, e.extension) + seq![' '], e.name, size_column_text(e), e.is_dir)
}

/// The lines of the file list, one per entry, in order.
pub fn file_lines(app: &App) -> (lines: Vec<FileLine>)
    ensures
        file_line_views(lines@) == app@.entries.map_values(|e: EntryView| file_line_text(e)),
{
    let ghost want = app@.entries.map_values(|e: EntryView| file_line_text(e));
    let mut out: Vec<FileLine> = Vec::new();
    let mut i: usize = 0;
    while i < app.entries.len()
        invariant
            i <= app.entries@.len(),
            want == app@.entries.map_values(|e: EntryView| file_line_text(e)),
            file_line_views(out@) == want.take(i as int),
        decreases app.entries@.len() - i,
    {
        let e = &app.entries[i];
        let ghost before = out@;
        out.push(FileLine { icon: icon_column(e), name: e.name.clone(), size: size_column(e), is_dir: e.is_dir });
        proof {
            assert(file_line_views(out@) =~= file_line_views(before).push(want[i as int]));
            assert(want.take(i + 1) =~= want.take(i as int).push(want[i as int]));
        }
        i += 1;
    }
    proof {
        assert(want.take(i as int) =~= want);
    }
    out
}

} // verus!
