//! The listing of one directory: a synthetic entry for the parent, one
//! entry for each child, in the order in which they are shown.

use crate::kinds::{determine_file_type, kind_of_file, FileKind};
use crate::order::{
    arrange, arranged, arranged_is_permutation, arranged_is_sorted, in_order,
    least_first_stays_first, lex_le_reflexive, line_views, unkeyed, Keyed, Line,
};
use crate::paths::{child_path, location, location_of, parent_path, path_of, Root};
use crate::text::{chars_of, is_word, views};
use crate::trusted::{format_timestamp, lowercase, lowercased, timestamp_text};
use vstd::prelude::*;

verus! {

/// What was read of one child of a directory.
pub struct DirEntry {
    pub name: String,
    pub is_dir: bool,
    /// The length of the file in bytes.
    pub size: u64,
    /// The time of the last change as the clock of the machine's zone
    /// showed it: the seconds since the start of 1970, plus the offset of
    /// that zone from UTC at that moment. `None` where it could not be
    /// had.
    pub modified: Option<i64>,
}

pub struct DirEntryView {
    pub name: Seq<char>,
    pub is_dir: bool,
    pub size: u64,
    pub modified: Option<i64>,
}

impl View for DirEntry {
    type V = DirEntryView;

    open spec fn view(&self) -> DirEntryView {
        DirEntryView {
            name: self.name@,
            is_dir: self.is_dir,
            size: self.size,
            modified: self.modified,
        }
    }
}

/// One line of a listing.
pub struct FileInfo {
    pub name: String,
    pub path: String,
    pub is_dir: bool,
    pub size: u64,
    pub modified: String,
    pub file_type: String,
}

pub struct FileInfoView {
    pub name: Seq<char>,
    pub path: Seq<char>,
    pub is_dir: bool,
    pub size: u64,
    pub modified: Seq<char>,
    pub file_type: Seq<char>,
}

impl View for FileInfo {
    type V = FileInfoView;

    open spec fn view(&self) -> FileInfoView {
        FileInfoView {
            name: self.name@,
            path: self.path@,
            is_dir: self.is_dir,
            size: self.size,
            modified: self.modified@,
            file_type: self.file_type@,
        }
    }
}

pub open spec fn entry_views(v: Seq<DirEntry>) -> Seq<DirEntryView> {
    Seq::new(v.len(), |i: int| v[i]@)
}

pub open spec fn info_views(v: Seq<FileInfo>) -> Seq<FileInfoView> {
    Seq::new(v.len(), |i: int| v[i]@)
}

/// The format in which the time of the last change is written.
pub open spec fn timestamp_pattern() -> Seq<char> {
    "%Y-%m-%d %H:%M:%S"@
}

/// The text shown for the time of the last change, given as local time
/// in seconds.
pub open spec fn modified_text(modified: Option<i64>) -> Seq<char> {
    match modified {
        Some(secs) => match timestamp_text(secs, timestamp_pattern()) {
            Some(text) => text,
            None => "Unknown"@,
        },
        None => "Unknown"@,
    }
}

/// The text shown for the time of the last change: date and time of day
/// as the local clock showed them, or `Unknown` where the time could not
/// be had or cannot be written.
pub fn format_modified(modified: Option<i64>) -> (text: String)
    ensures
        text@ == modified_text(modified),
{
    match modified {
        Some(secs) => match format_timestamp(secs, "%Y-%m-%d %H:%M:%S") {
            Some(text) => text,
            None => "Unknown".to_owned(),
        },
        None => "Unknown".to_owned(),
    }
}

/// The line for a child of the directory at `at`. A directory is listed
/// with size 0.
pub open spec fn info_of(at: Seq<Seq<char>>, entry: DirEntryView) -> FileInfoView {
    FileInfoView {
        name: entry.name,
        path: path_of(at.push(entry.name)),
        is_dir: entry.is_dir,
        size: if entry.is_dir {
            0
        } else {
            entry.size
        },
        modified: modified_text(entry.modified),
        file_type: if entry.is_dir {
            FileKind::Directory.label()
        } else {
            kind_of_file(entry.name).label()
        },
    }
}

/// The line that leads from the directory at `at` to its parent.
pub open spec fn parent_info(at: Seq<Seq<char>>) -> FileInfoView {
    FileInfoView {
        name: ".."@,
        path: path_of(at.drop_last()),
        is_dir: true,
        size: 0,
        modified: Seq::empty(),
        file_type: FileKind::Directory.label(),
    }
}

/// Whether the directory at `at` is listed with a line for its parent: it
/// is when it lies under the root and is not the root.
pub open spec fn has_parent(root: Seq<Seq<char>>, at: Seq<Seq<char>>) -> bool {
    root.is_prefix_of(at) && at != root
}

/// The lines of a listing before they are put in order.
pub open spec fn candidates(root: Seq<Seq<char>>, dir: Seq<char>, entries: Seq<DirEntryView>) -> Seq<
    FileInfoView,
> {
    let at = location(dir);
    let children = Seq::new(entries.len(), |i: int| info_of(at, entries[i]));
    if has_parent(root, at) {
        seq![parent_info(at)] + children
    } else {
        children
    }
}

/// The group of a line: the parent first, then directories, then files.
pub open spec fn rank(info: FileInfoView) -> int {
    if info.name == ".."@ {
        0
    } else if info.is_dir {
        1
    } else {
        2
    }
}

/// A line of a listing with what it is ordered by: its group, and its name
/// without regard to case.
pub open spec fn keyed(info: FileInfoView) -> Line<FileInfoView> {
    Line { group: rank(info), folded: lowercased(info.name), item: info }
}

pub open spec fn keyed_all(infos: Seq<FileInfoView>) -> Seq<Line<FileInfoView>> {
    Seq::new(infos.len(), |i: int| keyed(infos[i]))
}

/// The listing of the directory `dir` with the children `entries`: the
/// parent first, then directories, then files, each group by name without
/// regard to case.
pub open spec fn listing(root: Seq<Seq<char>>, dir: Seq<char>, entries: Seq<DirEntryView>) -> Seq<
    FileInfoView,
> {
    unkeyed(arranged(keyed_all(candidates(root, dir, entries))))
}

/// Joins a line with what it is ordered by.
fn with_key(info: FileInfo) -> (k: Keyed<FileInfo>)
    ensures
        k@ == keyed(info@),
{
    let name = chars_of(info.name.as_str());
    let group: u8 = if is_word(name.as_slice(), "..") {
        0
    } else if info.is_dir {
        1
    } else {
        2
    };
    let folded = lowercase(info.name.as_str());
    Keyed { group, folded: chars_of(folded.as_str()), item: info }
}

/// Puts the lines of a listing in order.
pub fn arrange_listing(lines: Vec<FileInfo>) -> (out: Vec<FileInfo>)
    ensures
        info_views(out@) == unkeyed(arranged(keyed_all(info_views(lines@)))),
{
    let mut keyed_lines: Vec<Keyed<FileInfo>> = Vec::new();
    let ghost all = keyed_all(info_views(lines@));
    assert(line_views(keyed_lines@) == all.take(0));
    for line in it: lines.into_iter()
        invariant
            it.seq() == lines@,
            all == keyed_all(info_views(lines@)),
            line_views(keyed_lines@) == all.take(it.index() as int),
    {
        let ghost before = keyed_lines@;
        let item = with_key(line);
        keyed_lines.push(item);
        assert(line_views(keyed_lines@) == line_views(before).push(item@));
        assert(line_views(keyed_lines@) == all.take(it.index() + 1));
    }
    assert(all.take(lines@.len() as int) == all);
    let in_place = arrange(keyed_lines);
    let ghost target = unkeyed(line_views(in_place@));
    let mut out: Vec<FileInfo> = Vec::new();
    assert(info_views(out@) == target.take(0));
    for item in it: in_place.into_iter()
        invariant
            it.seq() == in_place@,
            target == unkeyed(line_views(in_place@)),
            info_views(out@) == target.take(it.index() as int),
    {
        let ghost before = out@;
        out.push(item.item);
        assert(info_views(out@) == info_views(before).push(item.item@));
        assert(info_views(out@) == target.take(it.index() + 1));
    }
    assert(target.take(in_place@.len() as int) == target);
    out
}

/// Builds the listing of the directory `dir`, an absolute path, from what
/// was read of its children.
///
/// A directory under the root other than the root itself gets a first line
/// `..` that leads to its parent; the other lines follow with directories
/// before files, each group by name without regard to case.
pub fn load_directory(root: &Root, dir: &str, entries: &Vec<DirEntry>) -> (files: Vec<FileInfo>)
    ensures
        info_views(files@) == listing(root@, dir@, entry_views(entries@)),
{
    let at = location_of(dir);
    let mut lines: Vec<FileInfo> = Vec::new();
    let with_parent = root.holds(&at) && !root.is_at(&at);
    if with_parent {
        assert(at.len() > 0) by {
            if at.len() == 0 {
                assert(root@ =~= views(at@));
            }
        }
        lines.push(
            FileInfo {
                name: "..".to_owned(),
                path: parent_path(&at),
                is_dir: true,
                size: 0,
                modified: String::new(),
                file_type: FileKind::Directory.name(),
            },
        );
        assert(info_views(lines@) == seq![parent_info(views(at@))]);
    } else {
        assert(info_views(lines@) == Seq::<FileInfoView>::empty());
    }
    let ghost head = info_views(lines@);
    let ghost children = Seq::new(
        entries@.len(),
        |i: int| info_of(views(at@), entry_views(entries@)[i]),
    );
    let mut i: usize = 0;
    assert(children.take(0) == Seq::<FileInfoView>::empty());
    while i < entries.len()
        invariant
            i <= entries.len(),
            children == Seq::new(
                entries@.len(),
                |i: int| info_of(views(at@), entry_views(entries@)[i]),
            ),
            info_views(lines@) == head + children.take(i as int),
        decreases entries.len() - i,
    {
        let entry = &entries[i];
        let line = FileInfo {
            name: entry.name.clone(),
            path: child_path(&at, entry.name.as_str()),
            is_dir: entry.is_dir,
            size: if entry.is_dir {
                0
            } else {
                entry.size
            },
            modified: format_modified(entry.modified),
            file_type: if entry.is_dir {
                FileKind::Directory.name()
            } else {
                determine_file_type(entry.name.as_str())
            },
        };
        assert(line@ == children[i as int]);
        let ghost old_lines = lines@;
        lines.push(line);
        assert(info_views(lines@) == info_views(old_lines).push(line@));
        assert(children.take(i + 1) == children.take(i as int).push(children[i as int]));
        i += 1;
    }
    assert(children.take(entries.len() as int) == children);
    assert(info_views(lines@) == candidates(root@, dir@, entry_views(entries@)));
    arrange_listing(lines)
}

/// The lines of a listing are in order, and every line that was put in is
/// there, once for each time it was put in.
pub proof fn listing_is_sorted_permutation(
    root: Seq<Seq<char>>,
    dir: Seq<char>,
    entries: Seq<DirEntryView>,
)
    ensures
        listing(root, dir, entries).len() == candidates(root, dir, entries).len(),
        forall|i: int, j: int|
            0 <= i < j < listing(root, dir, entries).len() ==> in_order(
                keyed(listing(root, dir, entries)[i]),
                keyed(listing(root, dir, entries)[j]),
            ),
        listing(root, dir, entries).to_multiset() == candidates(root, dir, entries).to_multiset(),
{
    let lines = candidates(root, dir, entries);
    let shown = listing(root, dir, entries);
    arranged_is_sorted(keyed_all(lines));
    arranged_is_permutation(keyed_all(lines));
    keyed_items(arranged(keyed_all(lines)), lines);
    assert forall|i: int, j: int| 0 <= i < j < shown.len() implies in_order(
        keyed(shown[i]),
        keyed(shown[j]),
    ) by {
        assert(keyed(shown[i]) == arranged(keyed_all(lines))[i]);
        assert(keyed(shown[j]) == arranged(keyed_all(lines))[j]);
    }
    same_items(arranged(keyed_all(lines)), keyed_all(lines));
    assert(unkeyed(keyed_all(lines)) == lines);
}

/// Lines that are, up to their order, made by `keyed` are all made by it.
proof fn keyed_items(lines: Seq<Line<FileInfoView>>, infos: Seq<FileInfoView>)
    requires
        lines.to_multiset() == keyed_all(infos).to_multiset(),
    ensures
        forall|i: int| 0 <= i < lines.len() ==> lines[i] == keyed(#[trigger] lines[i].item),
{
    broadcast use vstd::seq_lib::group_to_multiset_ensures;

    assert forall|i: int| 0 <= i < lines.len() implies lines[i] == keyed(
        #[trigger] lines[i].item,
    ) by {
        assert(lines.contains(lines[i]));
        assert(keyed_all(infos).to_multiset().count(lines[i]) > 0);
        assert(keyed_all(infos).contains(lines[i]));
        let k = choose|k: int| 0 <= k < infos.len() && keyed_all(infos)[k] == lines[i];
        assert(lines[i] == keyed(infos[k]));
    }
}

/// Lines that hold the same, up to order, hold the same things, up to order.
proof fn same_items<V>(a: Seq<Line<V>>, b: Seq<Line<V>>)
    requires
        a.to_multiset() == b.to_multiset(),
    ensures
        unkeyed(a).to_multiset() == unkeyed(b).to_multiset(),
    decreases a.len(),
{
    broadcast use vstd::seq_lib::group_to_multiset_ensures;

    if a.len() == 0 {
        assert(a.to_multiset().len() == 0);
        assert(b.to_multiset().len() == b.len());
        assert(b.len() == 0);
        assert(unkeyed(a) == unkeyed(b));
    } else {
        let x = a.last();
        assert(a.contains(x));
        assert(b.to_multiset().count(x) > 0);
        assert(b.contains(x));
        let k = choose|k: int| 0 <= k < b.len() && b[k] == x;
        assert(a.drop_last().push(x) == a);
        assert(a.drop_last().to_multiset() == a.to_multiset().remove(x)) by {
            assert(a.remove(a.len() - 1) == a.drop_last());
        }
        same_items(a.drop_last(), b.remove(k));
        assert(unkeyed(a) == unkeyed(a.drop_last()).push(x.item));
        assert(unkeyed(b).remove(k) == unkeyed(b.remove(k)));
        assert(unkeyed(b)[k] == x.item);
        assert(unkeyed(b).to_multiset().remove(x.item) == unkeyed(b.remove(k)).to_multiset());
        assert(unkeyed(b).contains(x.item));
    }
}

/// The listing of a directory under the root, other than the root itself,
/// starts with the line `..` that leads to its parent.
pub proof fn listing_starts_with_parent(
    root: Seq<Seq<char>>,
    dir: Seq<char>,
    entries: Seq<DirEntryView>,
)
    requires
        has_parent(root, location(dir)),
    ensures
        listing(root, dir, entries).len() == entries.len() + 1,
        listing(root, dir, entries)[0] == parent_info(location(dir)),
        listing(root, dir, entries)[0].name == ".."@,
{
    let lines = keyed_all(candidates(root, dir, entries));
    assert(lines[0] == keyed(parent_info(location(dir))));
    assert forall|k: int| 0 <= k < lines.len() implies in_order(lines[0], lines[k]) by {
        lex_le_reflexive(lowercased(".."@));
    }
    least_first_stays_first(lines);
    arranged_is_sorted(lines);
}

/// The listing of the root itself holds no line `..`, given that no child
/// was read under that name.
pub proof fn root_listing_has_no_parent(
    root: Seq<Seq<char>>,
    dir: Seq<char>,
    entries: Seq<DirEntryView>,
)
    requires
        location(dir) == root,
        forall|i: int| 0 <= i < entries.len() ==> entries[i].name != ".."@,
    ensures
        listing(root, dir, entries).len() == entries.len(),
        forall|j: int|
            0 <= j < listing(root, dir, entries).len() ==> listing(root, dir, entries)[j].name
                != ".."@,
{
    broadcast use vstd::seq_lib::group_to_multiset_ensures;

    let lines = candidates(root, dir, entries);
    let shown = listing(root, dir, entries);
    listing_is_sorted_permutation(root, dir, entries);
    assert forall|j: int| 0 <= j < shown.len() implies shown[j].name != ".."@ by {
        assert(shown.contains(shown[j]));
        assert(lines.to_multiset().count(shown[j]) > 0);
        assert(lines.contains(shown[j]));
        let i = choose|i: int| 0 <= i < lines.len() && lines[i] == shown[j];
        assert(lines[i].name == entries[i].name);
    }
}

} // verus!
