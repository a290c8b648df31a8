//! What the browser makes of what the file system tells it: the home
//! directory, the shortcut and volume lists, the preview texts and the
//! message after opening a file.
use vstd::prelude::*;
use crate::paths::{file_name_of, file_name_part, joined_path, parent_path, path_file_name, path_join, plain_component, same_path};
pub use crate::listing::read_dir_entries;
pub use crate::size::format_size;
use crate::size::size_text;
use crate::text::{chars_of, decimal, from_utf8_lossy, push_char, push_decimal, utf8_lossy};
use crate::types::{DirItem, DiskInfo, ItemView, item_views};

verus! {

/// The home directory: the value of the home variable, or the root of
/// the system drive when it is unset.
pub open spec fn home_text(value: Option<Seq<char>>, on_windows: bool) -> Seq<char> {
    match value {
        Some(v) => v,
        None => if on_windows { "C:\\"@ } else { "/"@ },
    }
}

/// The home directory from the home variable's value (`USERPROFILE` on
/// Windows, `HOME` elsewhere), if it is set and valid text.
pub fn home_dir(value: Option<String>, on_windows: bool) -> (home: String)
    ensures
        home@ == home_text(
            match value {
                Some(v) => Some(v@),
                None => None,
            },
            on_windows,
        ),
{
    match value {
        Some(v) => v,
        None => if on_windows { String::from_str("C:\\") } else { String::from_str("/") },
    }
}

/// The folders offered as shortcuts, before any is checked to exist:
/// the home directory and its usual subfolders.
pub open spec fn shortcut_paths(home: Seq<char>) -> Seq<Seq<char>> {
    seq![
        home,
        joined_path(home, "Desktop"@),
        joined_path(home, "Documents"@),
        joined_path(home, "Downloads"@),
        joined_path(home, "Pictures"@),
        joined_path(home, "Music"@),
        joined_path(home, "Videos"@),
    ]
}

/// The views of a list of strings.
pub open spec fn text_views(v: Seq<String>) -> Seq<Seq<char>> {
    v.map_values(|s: String| s@)
}

/// The names of the usual subfolders of the home directory, in the order
/// they are offered.
pub open spec fn home_folder_names() -> Seq<Seq<char>> {
    seq!["Desktop"@, "Documents"@, "Downloads"@, "Pictures"@, "Music"@, "Videos"@]
}

/// Whether `p` is the home directory `home` or a folder directly in it.
pub open spec fn in_home(p: Seq<char>, home: Seq<char>) -> bool {
    p == home || (parent_path(p) is Some && same_path(parent_path(p)->0, home))
}

proof fn lemma_home_folder_names()
    ensures
        forall|k: int| 0 <= k < 6 ==> plain_component(#[trigger] home_folder_names()[k]),
        forall|j: int, k: int| 0 <= j < k < 6 ==> home_folder_names()[j] != home_folder_names()[k],
{
    reveal_strlit("Desktop");
    reveal_strlit("Documents");
    reveal_strlit("Downloads");
    reveal_strlit("Pictures");
    reveal_strlit("Music");
    reveal_strlit("Videos");
    let names = home_folder_names();
    assert forall|k: int| 0 <= k < 6 implies plain_component(#[trigger] names[k]) by {
        let n = names[k];
        assert forall|i: int| 0 <= i < n.len() implies n[i] != '/' && n[i] != '\\' && n[i] != ':' by {
            assert('A' <= n[i] <= 'z');
        }
        assert(n != "."@ && n != ".."@) by {
            reveal_strlit(".");
            reveal_strlit("..");
            assert(n.len() > 2);
        }
    }
    assert forall|j: int, k: int| 0 <= j < k < 6 implies names[j] != names[k] by {
        assert(names[j].len() != names[k].len() || names[j][0] != names[k][0] || names[j][2] != names[k][2]);
    }
}

/// The candidate shortcut folders for `home`, in the order they are shown:
/// no two alike, each the home directory or a folder directly in it, and
/// after the first, each named by the matching usual subfolder name.
pub fn shortcut_candidates(home: &str) -> (paths: Vec<String>)
    ensures
        text_views(paths@) == shortcut_paths(home@),
        text_views(paths@).no_duplicates(),
        forall|k: int| 0 <= k < paths@.len() ==> in_home(#[trigger] text_views(paths@)[k], home@),
        forall|k: int| 1 <= k < paths@.len() ==> file_name_part(#[trigger] text_views(paths@)[k]) == Some(home_folder_names()[k - 1]),
{
    proof {
        lemma_home_folder_names();
        reveal_strlit("Desktop");
        reveal_strlit("Documents");
        reveal_strlit("Downloads");
        reveal_strlit("Pictures");
        reveal_strlit("Music");
        reveal_strlit("Videos");
        assert(plain_component(home_folder_names()[0]));
        assert(plain_component(home_folder_names()[1]));
        assert(plain_component(home_folder_names()[2]));
        assert(plain_component(home_folder_names()[3]));
        assert(plain_component(home_folder_names()[4]));
        assert(plain_component(home_folder_names()[5]));
    }
    let mut v: Vec<String> = Vec::new();
    v.push(String::from_str(home));
    v.push(path_join(home, "Desktop"));
    v.push(path_join(home, "Documents"));
    v.push(path_join(home, "Downloads"));
    v.push(path_join(home, "Pictures"));
    v.push(path_join(home, "Music"));
    v.push(path_join(home, "Videos"));
    proof {
        let t = text_views(v@);
        assert(t =~= shortcut_paths(home@));
        assert forall|k: int| 1 <= k < 7 implies file_name_part(#[trigger] t[k]) == Some(home_folder_names()[k - 1]) by {
        }
        assert forall|j: int, k: int| 0 <= j < t.len() && 0 <= k < t.len() && j != k implies t[j] != t[k] by {
            if j == 0 || k == 0 {
                assert(t[j].len() != t[k].len());
            } else {
                assert(file_name_part(t[j]) != file_name_part(t[k]));
            }
        }
    }
    v
}

/// The candidates whose flag in `exists` is set (a missing flag counts
/// as unset), in order.
pub open spec fn kept_paths(paths: Seq<Seq<char>>, exists: Seq<bool>) -> Seq<Seq<char>>
    decreases paths.len(),
{
    if paths.len() == 0 {
        Seq::empty()
    } else {
        let i = paths.len() - 1;
        let rest = kept_paths(paths.drop_last(), exists);
        if i < exists.len() && exists[i] { rest.push(paths[i]) } else { rest }
    }
}

/// What is kept of a list is taken from it, and no two alike where the
/// list has no two alike.
proof fn lemma_kept_paths(paths: Seq<Seq<char>>, exists: Seq<bool>)
    ensures
        forall|k: int| 0 <= k < kept_paths(paths, exists).len() ==> paths.contains(#[trigger] kept_paths(paths, exists)[k]),
        paths.no_duplicates() ==> kept_paths(paths, exists).no_duplicates(),
        kept_paths(paths, exists).len() <= paths.len(),
    decreases paths.len(),
{
    if paths.len() > 0 {
        let init = paths.drop_last();
        let i = paths.len() - 1;
        lemma_kept_paths(init, exists);
        let rest = kept_paths(init, exists);
        assert forall|k: int| 0 <= k < rest.len() implies paths.contains(#[trigger] rest[k]) by {
            let j = choose|j: int| 0 <= j < init.len() && init[j] == rest[k];
            assert(paths[j] == rest[k]);
        }
        if i < exists.len() && exists[i] {
            let kept = rest.push(paths[i]);
            assert(kept_paths(paths, exists) == kept);
            assert forall|k: int| 0 <= k < kept.len() implies paths.contains(#[trigger] kept[k]) by {
                if k < rest.len() {
                    assert(kept[k] == rest[k]);
                } else {
                    assert(paths[i] == kept[k]);
                }
            }
            if paths.no_duplicates() {
                assert(init.no_duplicates());
                assert forall|k: int| 0 <= k < rest.len() implies rest[k] != paths[i] by {
                    let j = choose|j: int| 0 <= j < init.len() && init[j] == rest[k];
                    assert(paths[j] == init[j]);
                }
                assert forall|a: int, b: int| 0 <= a < kept.len() && 0 <= b < kept.len() && a != b implies kept[a] != kept[b] by {
                    if a < rest.len() && b < rest.len() {
                        assert(kept[a] == rest[a] && kept[b] == rest[b]);
                    } else if a < rest.len() {
                        assert(kept[a] == rest[a]);
                    } else {
                        assert(kept[b] == rest[b]);
                    }
                }
            }
        } else {
            if paths.no_duplicates() {
                assert(init.no_duplicates());
            }
        }
    }
}

/// The shortcut folders that exist, where `exists[i]` tells whether the
/// `i`-th candidate of `shortcut_candidates(home)` exists: no two alike,
/// each the home directory or a folder directly in it.
pub fn shortcuts_list(home: &str, exists: &Vec<bool>) -> (paths: Vec<String>)
    ensures
        text_views(paths@) == kept_paths(shortcut_paths(home@), exists@),
        text_views(paths@).no_duplicates(),
        forall|k: int| 0 <= k < paths@.len() ==> in_home(#[trigger] text_views(paths@)[k], home@),
{
    let candidates = shortcut_candidates(home);
    let ghost all = text_views(candidates@);
    let mut out: Vec<String> = Vec::new();
    let mut i: usize = 0;
    while i < candidates.len()
        invariant
            i <= candidates.len(),
            all == text_views(candidates@),
            all == shortcut_paths(home@),
            text_views(out@) == kept_paths(all.take(i as int), exists@),
        decreases candidates.len() - i,
    {
        proof {
            assert(all.take(i + 1).drop_last() =~= all.take(i as int));
        }
        if i < exists.len() && exists[i] {
            let ghost before = out@;
            out.push(candidates[i].clone());
            proof {
                assert(text_views(out@) =~= text_views(before).push(all[i as int]));
            }
        }
        i += 1;
    }
    proof {
        assert(all.take(i as int) =~= all);
        lemma_kept_paths(all, exists@);
        let t = text_views(out@);
        assert forall|k: int| 0 <= k < out@.len() implies in_home(#[trigger] t[k], home@) by {
            assert(all.contains(t[k]));
            let j = choose|j: int| 0 <= j < all.len() && all[j] == t[k];
            assert(in_home(all[j], home@));
        }
    }
    out
}

/// A volume as mathematical values.
pub struct DiskView {
    pub name: Seq<char>,
    pub label: Seq<char>,
}

/// The views of a list of volumes.
pub open spec fn disk_views(v: Seq<DiskInfo>) -> Seq<DiskView> {
    v.map_values(|d: DiskInfo| DiskView { name: d.name@, label: d.label@ })
}

/// The label of a mounted volume: a drive icon and the folder's name.
pub open spec fn mount_label(path: Seq<char>) -> Seq<char> {
    seq!['\u{f0c7}', ' '] + file_name_of(path)
}

/// The volumes offered on a Unix system: the root first, then each
/// directory found under the mount folders, in the order given.
pub open spec fn unix_disks(mounts: Seq<Seq<char>>) -> Seq<DiskView> {
    seq![DiskView { name: "/"@, label: "\u{eb46} / (root)"@ }]
        + mounts.map_values(|p: Seq<char>| DiskView { name: p, label: mount_label(p) })
}

/// The folders that hold mounted volumes on a Unix system.
pub fn mount_folders() -> (v: Vec<String>)
    ensures
        text_views(v@) == seq!["/mnt"@, "/media"@],
{
    let mut v: Vec<String> = Vec::new();
    v.push(String::from_str("/mnt"));
    v.push(String::from_str("/media"));
    proof {
        assert(text_views(v@) =~= seq!["/mnt"@, "/media"@]);
    }
    v
}

/// The volume list on a Unix system, from the directories `mounts` found
/// in the mount folders.
pub fn detect_disks(mounts: &Vec<String>) -> (disks: Vec<DiskInfo>)
    ensures
        disk_views(disks@) == unix_disks(text_views(mounts@)),
{
    let ghost ms = text_views(mounts@);
    let mut out: Vec<DiskInfo> = Vec::new();
    out.push(DiskInfo { name: String::from_str("/"), label: String::from_str("\u{eb46} / (root)") });
    let mut i: usize = 0;
    while i < mounts.len()
        invariant
            i <= mounts.len(),
            ms == text_views(mounts@),
            disk_views(out@) == unix_disks(ms.take(i as int)),
        decreases mounts.len() - i,
    {
        let p = &mounts[i];
        let mut label = String::new();
        push_char(&mut label, '\u{f0c7}');
        push_char(&mut label, ' ');
        let name = path_file_name(p.as_str());
        label.append(name.as_str());
        let ghost before = out@;
        out.push(DiskInfo { name: p.clone(), label });
        proof {
            assert(label@ =~= mount_label(ms[i as int]));
            let d = DiskView { name: ms[i as int], label: mount_label(ms[i as int]) };
            assert(ms.take(i + 1) =~= ms.take(i as int).push(ms[i as int]));
            assert(disk_views(out@) =~= disk_views(before).push(d));
            assert(ms.take(i + 1).map_values(|p: Seq<char>| DiskView { name: p, label: mount_label(p) })
                =~= ms.take(i as int).map_values(|p: Seq<char>| DiskView { name: p, label: mount_label(p) }).push(d));
            assert(disk_views(out@) =~= unix_disks(ms.take(i + 1)));
        }
        i += 1;
    }
    proof {
        assert(ms.take(i as int) =~= ms);
    }
    out
}

/// The drive roots that a Windows system may have, `A:\` to `Z:\`.
pub open spec fn drive_root(letter: nat) -> Seq<char> {
    seq![(65 + letter) as char, ':', '\\']
}

/// The drive roots `A:\` to `Z:\`, to be checked for existence.
pub fn drive_roots() -> (roots: Vec<String>)
    ensures
        roots@.len() == 26,
        forall|i: int| 0 <= i < 26 ==> (#[trigger] roots@[i])@ == drive_root(i as nat),
{
    let mut v: Vec<String> = Vec::new();
    let mut k: u8 = 0;
    while k < 26
        invariant
            k <= 26,
            v@.len() == k,
            forall|i: int| 0 <= i < k ==> (#[trigger] v@[i])@ == drive_root(i as nat),
        decreases 26 - k,
    {
        let mut s = String::new();
        push_char(&mut s, (65u8 + k) as char);
        push_char(&mut s, ':');
        push_char(&mut s, '\\');
        proof {
            assert(s@ =~= drive_root(k as nat));
        }
        v.push(s);
        k += 1;
    }
    v
}

/// The volume list on Windows, from the drive roots that exist.
pub open spec fn windows_disks(roots: Seq<Seq<char>>) -> Seq<DiskView> {
    roots.map_values(|p: Seq<char>| DiskView { name: p, label: seq!['\u{f0c7}', ' '] + p })
}

/// The volume list on Windows, from the drive roots `present` that exist.
pub fn drive_disks(present: &Vec<String>) -> (disks: Vec<DiskInfo>)
    ensures
        disk_views(disks@) == windows_disks(text_views(present@)),
{
    let ghost rs = text_views(present@);
    let mut out: Vec<DiskInfo> = Vec::new();
    let mut i: usize = 0;
    while i < present.len()
        invariant
            i <= present.len(),
            rs == text_views(present@),
            disk_views(out@) == windows_disks(rs.take(i as int)),
        decreases present.len() - i,
    {
        let mut label = String::new();
        push_char(&mut label, '\u{f0c7}');
        push_char(&mut label, ' ');
        label.append(present[i].as_str());
        proof {
            assert(label@ =~= seq!['\u{f0c7}', ' '] + rs[i as int]);
        }
        let ghost before = out@;
        out.push(DiskInfo { name: present[i].clone(), label });
        proof {
            let d = DiskView { name: rs[i as int], label: seq!['\u{f0c7}', ' '] + rs[i as int] };
            assert(rs.take(i + 1) =~= rs.take(i as int).push(rs[i as int]));
            assert(disk_views(out@) =~= disk_views(before).push(d));
            assert(rs.take(i + 1).map_values(|p: Seq<char>| DiskView { name: p, label: seq!['\u{f0c7}', ' '] + p })
                =~= rs.take(i as int).map_values(|p: Seq<char>| DiskView { name: p, label: seq!['\u{f0c7}', ' '] + p }).push(d));
            assert(disk_views(out@) =~= windows_disks(rs.take(i + 1)));
        }
        i += 1;
    }
    proof {
        assert(rs.take(i as int) =~= rs);
    }
    out
}


/// At most this many entries are listed in a folder's preview.
pub const DIR_PREVIEW_LIMIT: usize = 30;

/// At most this many leading bytes of a file are previewed.
pub const PREVIEW_BYTES: usize = 8192;

/// Lines joined with a line break between each two.
pub open spec fn join_lines(lines: Seq<Seq<char>>) -> Seq<char>
    decreases lines.len(),
{
    if lines.len() == 0 {
        Seq::empty()
    } else if lines.len() == 1 {
        lines[0]
    } else {
        join_lines(lines.drop_last()) + seq!['\n'] + lines.last()
    }
}

/// The preview line of one entry of a folder: an icon and the name.
pub open spec fn dir_line(item: ItemView) -> Seq<char> {
    (if item.is_dir { seq!['\u{f07c}'] } else { seq!['\u{f15b}'] }) + seq![' '] + item.name
}

/// The entries of a folder that its preview lists.
pub open spec fn previewed(items: Seq<ItemView>) -> Seq<ItemView> {
    if items.len() <= 30 { items } else { items.take(30) }
}

/// The lines of a folder's preview: a header with the path, one line per
/// listed entry, a note when the limit was reached, and the count.
pub open spec fn dir_preview_lines(path: Seq<char>, items: Seq<ItemView>) -> Seq<Seq<char>> {
    let shown = previewed(items);
    let body = seq![seq!['\u{f07c}', ' '] + path + seq!['\n']] + shown.map_values(|it: ItemView| dir_line(it));
    let noted = if shown.len() == 30 { body.push("... (more files)"@) } else { body };
    noted.push(seq!['\n'] + "Total: "@ + decimal(shown.len()) + " elements"@)
}

proof fn lemma_join_push(lines: Seq<Seq<char>>, x: Seq<char>)
    requires
        lines.len() >= 1,
    ensures
        join_lines(lines.push(x)) == join_lines(lines) + seq!['\n'] + x,
{
    assert(lines.push(x).drop_last() =~= lines);
}

/// The preview of the folder at `path` whose entries are `items`.
pub fn dir_preview(path: &str, items: &Vec<DirItem>) -> (text: String)
    ensures
        text@ == join_lines(dir_preview_lines(path@, item_views(items@))),
{
    let ghost iv = item_views(items@);
    let total: usize = if items.len() <= DIR_PREVIEW_LIMIT { items.len() } else { DIR_PREVIEW_LIMIT };
    let ghost shown = previewed(iv);
    let mut s = String::new();
    push_char(&mut s, '\u{f07c}');
    push_char(&mut s, ' ');
    s.append(path);
    push_char(&mut s, '\n');
    let ghost header = seq!['\u{f07c}', ' '] + path@ + seq!['\n'];
    proof {
        assert(s@ =~= header);
        assert(shown.len() == total);
        assert(shown.take(0).map_values(|it: ItemView| dir_line(it)) =~= Seq::<Seq<char>>::empty());
        assert(seq![header] + shown.take(0).map_values(|it: ItemView| dir_line(it)) =~= seq![header]);
    }
    let mut i: usize = 0;
    while i < total
        invariant
            i <= total,
            total <= items@.len(),
            iv == item_views(items@),
            shown == previewed(iv),
            shown.len() == total,
            forall|k: int| 0 <= k < total ==> shown[k] == iv[k],
            s@ == join_lines(seq![header] + shown.take(i as int).map_values(|it: ItemView| dir_line(it))),
        decreases total - i,
    {
        let ghost lines = seq![header] + shown.take(i as int).map_values(|it: ItemView| dir_line(it));
        let item = &items[i];
        push_char(&mut s, '\n');
        if item.is_dir {
            push_char(&mut s, '\u{f07c}');
        } else {
            push_char(&mut s, '\u{f15b}');
        }
        push_char(&mut s, ' ');
        s.append(item.name.as_str());
        proof {
            lemma_join_push(lines, dir_line(shown[i as int]));
            assert(lines.push(dir_line(shown[i as int])) =~= seq![header] + shown.take(i + 1).map_values(|it: ItemView| dir_line(it)));
        }
        i += 1;
    }
    let ghost body = seq![header] + shown.map_values(|it: ItemView| dir_line(it));
    proof {
        assert(shown.take(total as int) =~= shown);
    }
    if total == DIR_PREVIEW_LIMIT {
        push_char(&mut s, '\n');
        s.append("... (more files)");
        proof {
            lemma_join_push(body, "... (more files)"@);
        }
    }
    let ghost noted = if shown.len() == 30 { body.push("... (more files)"@) } else { body };
    let ghost last = seq!['\n'] + "Total: "@ + decimal(total as nat) + " elements"@;
    let ghost before = s@;
    push_char(&mut s, '\n');
    push_char(&mut s, '\n');
    s.append("Total: ");
    push_decimal(&mut s, total as u64);
    s.append(" elements");
    proof {
        lemma_join_push(noted, last);
        assert(s@ =~= before + seq!['\n'] + last);
    }
    s
}

/// What was read of a file to preview it: its size, its leading bytes,
/// or why it could not be opened.
pub enum FileData {
    Size(u64),
    Head(Vec<u8>),
    OpenFailed(String),
}

/// The extensions shown as images.
pub open spec fn is_image_ext(ext: Seq<char>) -> bool {
    ext == "png"@ || ext == "jpg"@ || ext == "jpeg"@ || ext == "gif"@ || ext == "bmp"@
        || ext == "svg"@ || ext == "webp"@ || ext == "ico"@
}

/// The extensions shown as binary files by their size.
pub open spec fn is_binary_ext(ext: Seq<char>) -> bool {
    ext == "exe"@ || ext == "bin"@ || ext == "zip"@ || ext == "tar"@ || ext == "gz"@
        || ext == "bz2"@ || ext == "xz"@ || ext == "7z"@ || ext == "rar"@ || ext == "pdf"@
        || ext == "mp3"@ || ext == "mp4"@ || ext == "mkv"@ || ext == "avi"@ || ext == "flac"@
        || ext == "ogg"@ || ext == "wav"@ || ext == "class"@
}

/// What a file's preview needs to read.
#[derive(Debug, Clone, Copy, PartialEq, Eq, Structural)]
pub enum FileRead {
    /// Nothing: images are previewed by their path.
    Nothing,
    /// The file's size.
    Size,
    /// The file's leading bytes.
    Head,
}

/// What the preview of a file with extension `ext` needs to read.
pub open spec fn read_for(ext: Seq<char>) -> FileRead {
    if is_image_ext(ext) {
        FileRead::Nothing
    } else if is_binary_ext(ext) {
        FileRead::Size
    } else {
        FileRead::Head
    }
}

/// The bytes of a file's head that are previewed.
pub open spec fn head_part(bytes: Seq<u8>) -> Seq<u8> {
    if bytes.len() <= 8192 { bytes } else { bytes.take(8192) }
}

/// The preview of the file at `path` with extension `ext` from what was
/// read of it. A size stands for an unreadable head, a head for an
/// unknown size (0), as when the file system's answer is an error.
pub open spec fn file_preview_text(path: Seq<char>, ext: Seq<char>, data: FileData) -> Seq<char> {
    if is_image_ext(ext) {
        "\u{f02e9}  Images\n\n"@ + path
    } else if is_binary_ext(ext) {
        "\u{eae8} bin file\n\nsize: "@ + size_text(match data { FileData::Size(n) => n as nat, _ => 0 })
    } else {
        match data {
            FileData::OpenFailed(e) => "\u{274c} Error:\n"@ + e@,
            FileData::Head(b) => {
                let h = head_part(b@);
                if h.contains(0u8) { "\u{eae8} Bin file"@ } else { utf8_lossy(h) }
            },
            FileData::Size(_) => utf8_lossy(Seq::empty()),
        }
    }
}

/// Whether two texts are equal.
pub fn same_text(a: &str, b: &str) -> (r: bool)
    ensures
        r == (a@ == b@),
{
    let x = chars_of(a);
    let y = chars_of(b);
    if x.len() != y.len() {
        return false;
    }
    let mut i: usize = 0;
    while i < x.len()
        invariant
            i <= x.len(),
            x.len() == y.len(),
            x@ == a@,
            y@ == b@,
            forall|k: int| 0 <= k < i ==> x@[k] == y@[k],
        decreases x.len() - i,
    {
        if x[i] != y[i] {
            proof {
                assert(a@[i as int] != b@[i as int]);
            }
            return false;
        }
        i += 1;
    }
    proof {
        assert(x@ =~= y@);
    }
    true
}

/// Whether `ext` is shown as an image.
pub fn image_ext(ext: &str) -> (r: bool)
    ensures
        r == is_image_ext(ext@),
{
    same_text(ext, "png") || same_text(ext, "jpg") || same_text(ext, "jpeg") || same_text(ext, "gif")
        || same_text(ext, "bmp") || same_text(ext, "svg") || same_text(ext, "webp") || same_text(ext, "ico")
}

/// Whether `ext` is shown as a binary file.
pub fn binary_ext(ext: &str) -> (r: bool)
    ensures
        r == is_binary_ext(ext@),
{
    same_text(ext, "exe") || same_text(ext, "bin") || same_text(ext, "zip") || same_text(ext, "tar")
        || same_text(ext, "gz") || same_text(ext, "bz2") || same_text(ext, "xz") || same_text(ext, "7z")
        || same_text(ext, "rar") || same_text(ext, "pdf") || same_text(ext, "mp3") || same_text(ext, "mp4")
        || same_text(ext, "mkv") || same_text(ext, "avi") || same_text(ext, "flac") || same_text(ext, "ogg")
        || same_text(ext, "wav") || same_text(ext, "class")
}

/// What the preview of a file with extension `ext` needs to read.
pub fn file_read_for(ext: &str) -> (r: FileRead)
    ensures
        r == read_for(ext@),
{
    if image_ext(ext) {
        FileRead::Nothing
    } else if binary_ext(ext) {
        FileRead::Size
    } else {
        FileRead::Head
    }
}

fn head_bytes(bytes: &Vec<u8>) -> (h: Vec<u8>)
    ensures
        h@ == head_part(bytes@),
{
    let n: usize = if bytes.len() <= PREVIEW_BYTES { bytes.len() } else { PREVIEW_BYTES };
    let mut h: Vec<u8> = Vec::new();
    let mut i: usize = 0;
    while i < n
        invariant
            i <= n,
            n <= bytes@.len(),
            n == head_part(bytes@).len(),
            h@ == bytes@.take(i as int),
        decreases n - i,
    {
        h.push(bytes[i]);
        i += 1;
        proof {
            assert(h@ =~= bytes@.take(i as int));
        }
    }
    proof {
        assert(h@ =~= head_part(bytes@));
    }
    h
}

fn has_zero(bytes: &Vec<u8>) -> (r: bool)
    ensures
        r == bytes@.contains(0u8),
{
    let mut i: usize = 0;
    while i < bytes.len()
        invariant
            i <= bytes.len(),
            forall|k: int| 0 <= k < i ==> bytes@[k] != 0u8,
        decreases bytes.len() - i,
    {
        if bytes[i] == 0 {
            proof {
                assert(bytes@[i as int] == 0u8);
            }
            return true;
        }
        i += 1;
    }
    false
}

/// The preview of the file at `path` with extension `ext`, from what
/// was read of it.
pub fn file_preview(path: &str, ext: &str, data: &FileData) -> (text: String)
    ensures
        text@ == file_preview_text(path@, ext@, *data),
        read_for(ext@) == FileRead::Head && *data is Head ==> text@.len() <= PREVIEW_BYTES,
        read_for(ext@) == FileRead::Head && *data is Head && !head_part(data->Head_0@).contains(0u8)
            && (forall|i: int| 0 <= i < head_part(data->Head_0@).len() ==> #[trigger] head_part(data->Head_0@)[i] < 128u8)
            ==> text@ == head_part(data->Head_0@).map_values(|b: u8| b as char),
{
    if image_ext(ext) {
        let mut s = String::from_str("\u{f02e9}  Images\n\n");
        s.append(path);
        return s;
    }
    if binary_ext(ext) {
        let size: u64 = match data {
            FileData::Size(n) => *n,
            _ => 0,
        };
        let mut s = String::from_str("\u{eae8} bin file\n\nsize: ");
        let f = format_size(size);
        s.append(f.as_str());
        return s;
    }
    match data {
        FileData::OpenFailed(e) => {
            let mut s = String::from_str("\u{274c} Error:\n");
            s.append(e.as_str());
            s
        },
        FileData::Head(b) => {
            let h = head_bytes(b);
            if has_zero(&h) {
                proof {
                    reveal_strlit("\u{eae8} Bin file");
                }
                String::from_str("\u{eae8} Bin file")
            } else {
                from_utf8_lossy(h.as_slice())
            }
        },
        FileData::Size(_) => {
            let empty: Vec<u8> = Vec::new();
            from_utf8_lossy(empty.as_slice())
        },
    }
}

/// The status line after asking the system to open a file: its name, or
/// the reason it failed.
pub open spec fn open_status(path: Seq<char>, outcome: Result<(), Seq<char>>) -> Seq<char> {
    match outcome {
        Ok(()) => "Open: "@ + file_name_of(path),
        Err(e) => "False opened: "@ + e,
    }
}

/// Sets `status` after the system was asked to open the file at `path`;
/// `outcome` is what starting the opener gave.
pub fn open_with_system(path: &str, outcome: &Result<(), String>, status: &mut String)
    ensures
        final(status)@ == open_status(
            path@,
            match outcome {
                Ok(()) => Ok(()),
                Err(e) => Err(e@),
            },
        ),
{
    match outcome {
        Ok(()) => {
            let mut s = String::from_str("Open: ");
            let name = path_file_name(path);
            s.append(name.as_str());
            *status = s;
        },
        Err(e) => {
            let mut s = String::from_str("False opened: ");
            s.append(e.as_str());
            *status = s;
        },
    }
}

} // verus!
