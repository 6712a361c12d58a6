//! Bundling files and directories into one archive.
//!
//! The inputs are walked with a stack of paths that wait their turn, not
//! by recursion. Reading lies with the caller: it is told what to look at
//! next and reports what it found. What goes into the archive, under which
//! name and in which order, is decided here; what could not be read or
//! added is passed over and listed, and the rest still makes an archive.

use crate::paths::{child_path, lies_under, location, location_of, path_of, resolved, Root};
use crate::reply::{text_reply, Body, BodyView, Reply, ReplyView, BAD_REQUEST, INTERNAL_SERVER_ERROR, OK};
use crate::text::{chars_of, push_str, split, split_chars, string_of, views};
use crate::trusted::{
    add_archive_directory, archive_bytes, archive_entries, archive_takes_data,
    archive_takes_directory, archive_takes_file, finish_archive, new_archive, percent_decode,
    percent_decoded, start_archive_file, trim, trimmed, write_archive_data, Archive, Compression,
    MAX_NAME_BYTES,
};
use vstd::prelude::*;
use vstd::utf8::encode_utf8;

verus! {

/// The query of a request for an archive: the paths to bundle, each
/// percent-encoded, with commas between them.
pub struct DownloadMultipleQuery {
    pub paths: String,
}

/// The path that one piece of the query stands for, `None` where the
/// piece is empty once trimmed or leads out of the root.
pub open spec fn input_of(root: Seq<Seq<char>>, piece: Seq<char>) -> Option<Seq<char>> {
    if trimmed(piece).len() == 0 {
        None
    } else {
        resolved(root, percent_decoded(trimmed(piece)))
    }
}

/// The paths to bundle: those of the pieces that name something and lead
/// into the root, in their order. The others are passed over.
pub open spec fn inputs_of(root: Seq<Seq<char>>, pieces: Seq<Seq<char>>) -> Seq<Seq<char>>
    decreases pieces.len(),
{
    if pieces.len() == 0 {
        Seq::empty()
    } else {
        let before = inputs_of(root, pieces.drop_last());
        match input_of(root, pieces.last()) {
            Some(path) => before.push(path),
            None => before,
        }
    }
}

/// Whether a query names no path at all: each of its pieces is empty once
/// trimmed.
pub open spec fn names_nothing(pieces: Seq<Seq<char>>) -> bool {
    forall|i: int| 0 <= i < pieces.len() ==> trimmed(#[trigger] pieces[i]).len() == 0
}

/// Whether every piece of a query is empty: the query is empty, or made
/// of commas alone.
pub open spec fn all_empty(pieces: Seq<Seq<char>>) -> bool {
    forall|i: int| 0 <= i < pieces.len() ==> (#[trigger] pieces[i]).len() == 0
}

/// The paths that a query asks to bundle, or the answer 400 for a query
/// that names none.
pub open spec fn archive_request(root: Seq<Seq<char>>, paths: Seq<char>) -> Result<
    Seq<Seq<char>>,
    ReplyView,
> {
    let pieces = split(paths, ',');
    if names_nothing(pieces) {
        Err(text_reply(BAD_REQUEST, "No files specified"@))
    } else {
        Ok(inputs_of(root, pieces))
    }
}

pub open spec fn string_views(v: Seq<String>) -> Seq<Seq<char>> {
    Seq::new(v.len(), |i: int| v[i]@)
}

/// Reads the query of a request for an archive.
pub fn handle_download_multiple(root: &Root, query: &DownloadMultipleQuery) -> (r: Result<
    Vec<String>,
    Reply,
>)
    ensures
        match r {
            Ok(inputs) => archive_request(root@, query.paths@) == Ok::<Seq<Seq<char>>, ReplyView>(
                string_views(inputs@),
            ) && forall|k: int| 0 <= k < inputs@.len() ==> lies_under(root@, #[trigger] inputs@[k]@),
            Err(reply) => archive_request(root@, query.paths@) == Err::<Seq<Seq<char>>, ReplyView>(
                reply@,
            ),
        },
        all_empty(split(query.paths@, ',')) ==> r is Err,
{
    let text = chars_of(query.paths.as_str());
    let pieces = split_chars(text.as_slice(), ',');
    let ghost all = views(pieces@);
    let mut inputs: Vec<String> = Vec::new();
    let mut named: bool = false;
    let mut i: usize = 0;
    assert(all.take(0) == Seq::<Seq<char>>::empty());
    assert(string_views(inputs@) == Seq::<Seq<char>>::empty());
    while i < pieces.len()
        invariant
            i <= pieces.len(),
            all == views(pieces@),
            string_views(inputs@) == inputs_of(root@, all.take(i as int)),
            forall|k: int| 0 <= k < inputs@.len() ==> lies_under(root@, #[trigger] inputs@[k]@),
            named == !names_nothing(all.take(i as int)),
            forall|k: int| 0 <= k < i ==> trimmed(#[trigger] all[k]).len() <= all[k].len(),
        decreases pieces.len() - i,
    {
        let ghost seen = all.take(i + 1);
        assert(seen.drop_last() == all.take(i as int));
        assert(seen.last() == pieces@[i as int]@);
        let piece = string_of(pieces[i].as_slice());
        let bare = trim(piece.as_str());
        let empty = bare.unicode_len() == 0;
        if !empty {
            named = true;
        }
        assert(named == !names_nothing(seen)) by {
            if names_nothing(seen) {
                assert forall|k: int| 0 <= k < i implies trimmed(#[trigger] all.take(i as int)[k]).len()
                    == 0 by {
                    assert(seen[k] == all.take(i as int)[k]);
                }
                assert(trimmed(seen[i as int]).len() == 0);
            } else {
                let k = choose|k: int| 0 <= k < seen.len() && trimmed(#[trigger] seen[k]).len() != 0;
                if k < i {
                    assert(all.take(i as int)[k] == seen[k]);
                }
            }
        }
        if !empty {
            let decoded = percent_decode(bare);
            match root.resolve(decoded.as_str()) {
                Some(path) => {
                    let ghost before = inputs@;
                    inputs.push(path);
                    assert(string_views(inputs@) == string_views(before).push(path@));
                },
                None => {},
            }
        }
        i += 1;
    }
    assert(all.take(pieces.len() as int) == all);
    assert(all_empty(all) ==> names_nothing(all));
    if named {
        Ok(inputs)
    } else {
        Err(Reply::text(BAD_REQUEST, "No files specified"))
    }
}

/// Something that waits to go into the archive.
pub struct Pending {
    /// Where it lies.
    pub path: String,
    /// For an input of the request its own name, for anything below an
    /// input the path that leads to it from that input.
    pub name: String,
    /// Whether it is an input of the request.
    pub top: bool,
}

pub struct PendingView {
    pub path: Seq<char>,
    pub name: Seq<char>,
    pub top: bool,
}

impl View for Pending {
    type V = PendingView;

    open spec fn view(&self) -> PendingView {
        PendingView { path: self.path@, name: self.name@, top: self.top }
    }
}

pub open spec fn pending_views(v: Seq<Pending>) -> Seq<PendingView> {
    Seq::new(v.len(), |i: int| v[i]@)
}

/// What was found at a path.
#[derive(Clone, Copy, Debug, PartialEq, Eq, Structural)]
pub enum Stat {
    /// Nothing that could be looked at.
    Unreadable,
    File,
    Directory,
    /// Something that is neither a file nor a directory.
    Other,
}

/// What the caller reports.
pub enum ArchiveEvent {
    /// Nothing yet: the job is to begin.
    Start,
    /// What lies at the path that was to be looked at.
    Found(Stat),
    /// The bytes of the file that was to be read, `None` where it could
    /// not be read.
    FileRead(Option<Vec<u8>>),
    /// The names of the children of the directory that was to be read, in
    /// the order in which they are to go into the archive, `None` where
    /// the directory could not be read.
    DirectoryRead(Option<Vec<String>>),
}

pub enum ArchiveEventView {
    Start,
    Found(Stat),
    FileRead(Option<Seq<u8>>),
    DirectoryRead(Option<Seq<Seq<char>>>),
}

impl View for ArchiveEvent {
    type V = ArchiveEventView;

    open spec fn view(&self) -> ArchiveEventView {
        match self {
            ArchiveEvent::Start => ArchiveEventView::Start,
            ArchiveEvent::Found(stat) => ArchiveEventView::Found(*stat),
            ArchiveEvent::FileRead(read) => ArchiveEventView::FileRead(
                match read {
                    Some(bytes) => Some(bytes@),
                    None => None,
                },
            ),
            ArchiveEvent::DirectoryRead(read) => ArchiveEventView::DirectoryRead(
                match read {
                    Some(names) => Some(string_views(names@)),
                    None => None,
                },
            ),
        }
    }
}

/// What the caller is to do next.
pub enum ArchiveAction {
    /// Find out what lies at the path.
    Look(String),
    ReadFile(String),
    ReadDirectory(String),
    /// Nothing is left to read: finish the archive.
    Finish,
}

pub enum ArchiveActionView {
    Look(Seq<char>),
    ReadFile(Seq<char>),
    ReadDirectory(Seq<char>),
    Finish,
}

impl View for ArchiveAction {
    type V = ArchiveActionView;

    open spec fn view(&self) -> ArchiveActionView {
        match self {
            ArchiveAction::Look(p) => ArchiveActionView::Look(p@),
            ArchiveAction::ReadFile(p) => ArchiveActionView::ReadFile(p@),
            ArchiveAction::ReadDirectory(p) => ArchiveActionView::ReadDirectory(p@),
            ArchiveAction::Finish => ArchiveActionView::Finish,
        }
    }
}

/// The making of one archive.
pub struct ArchiveJob {
    archive: Archive,
    /// What waits its turn; the last comes next.
    pending: Vec<Pending>,
    /// What the caller is looking at or reading.
    awaited: Option<Pending>,
    written: Vec<String>,
    skipped: Vec<String>,
}

pub struct ArchiveJobView {
    /// The archive so far.
    pub archive: Archive,
    pub pending: Seq<PendingView>,
    pub awaited: Option<PendingView>,
    /// The names of the entries that the job added, in order.
    pub written: Seq<Seq<char>>,
    /// The paths of what was passed over, in order.
    pub skipped: Seq<Seq<char>>,
}

impl View for ArchiveJob {
    type V = ArchiveJobView;

    closed spec fn view(&self) -> ArchiveJobView {
        ArchiveJobView {
            archive: self.archive,
            pending: pending_views(self.pending@),
            awaited: match self.awaited {
                Some(item) => Some(item@),
                None => None,
            },
            written: string_views(self.written@),
            skipped: string_views(self.skipped@),
        }
    }
}

impl ArchiveJobView {
    /// The entries of the archive so far, each with its name and bytes.
    pub open spec fn entries(self) -> Seq<(Seq<char>, Seq<u8>)> {
        archive_entries(self.archive)
    }
}

/// The last name of a path, or `file` for a path without one.
pub open spec fn base_name(path: Seq<char>) -> Seq<char> {
    let at = location(path);
    if at.len() > 0 {
        at.last()
    } else {
        "file"@
    }
}

/// The inputs of a request as they wait at the start of the job: the
/// first input comes next.
pub open spec fn waiting_inputs(inputs: Seq<Seq<char>>) -> Seq<PendingView>
    decreases inputs.len(),
{
    if inputs.len() == 0 {
        Seq::empty()
    } else {
        waiting_inputs(inputs.skip(1)).push(
            PendingView { path: inputs[0], name: base_name(inputs[0]), top: true },
        )
    }
}

/// The name in the archive of a child of the directory `dir`: an input
/// directory gives its own name to nothing, so that what lies in it is
/// named from there on.
pub open spec fn child_name(dir: PendingView, child: Seq<char>) -> Seq<char> {
    if dir.top {
        child
    } else {
        dir.name + "/"@ + child
    }
}

pub open spec fn child_of(dir: PendingView, child: Seq<char>) -> PendingView {
    PendingView {
        path: path_of(location(dir.path).push(child)),
        name: child_name(dir, child),
        top: false,
    }
}

/// The children of a directory as they are put on what waits: the first
/// child comes next.
pub open spec fn waiting_children(dir: PendingView, children: Seq<Seq<char>>) -> Seq<PendingView>
    decreases children.len(),
{
    if children.len() == 0 {
        Seq::empty()
    } else {
        waiting_children(dir, children.skip(1)).push(child_of(dir, children[0]))
    }
}

/// The job went on to what comes next of `pending`, or is at its end.
pub open spec fn went_on(
    pending: Seq<PendingView>,
    after: ArchiveJobView,
    action: ArchiveActionView,
) -> bool {
    if pending.len() == 0 {
        after.pending == pending && after.awaited is None && action == ArchiveActionView::Finish
    } else {
        after.pending == pending.drop_last() && after.awaited == Some(pending.last()) && action
            == ArchiveActionView::Look(pending.last().path)
    }
}

/// The archive and the two lists of the job are as they were.
pub open spec fn archive_unchanged(before: ArchiveJobView, after: ArchiveJobView) -> bool {
    after.archive == before.archive && after.written == before.written && after.skipped
        == before.skipped
}

/// The job passed over the path, and left the archive as it was.
pub open spec fn passed_over(before: ArchiveJobView, after: ArchiveJobView, path: Seq<char>) -> bool {
    after.archive == before.archive && after.written == before.written && after.skipped
        == before.skipped.push(path)
}

/// Whether a name is short enough for an entry: its UTF-8 form has at
/// most 65535 bytes.
pub open spec fn name_fits(name: Seq<char>) -> bool {
    encode_utf8(name).len() as usize <= MAX_NAME_BYTES
}

/// The archive has the entry behind those it had, and the job lists its
/// name as written.
pub open spec fn added(
    before: ArchiveJobView,
    after: ArchiveJobView,
    name: Seq<char>,
    data: Seq<u8>,
) -> bool {
    &&& after.entries() == before.entries().push((name, data))
    &&& after.written == before.written.push(name)
    &&& after.skipped == before.skipped
}

/// The job lists the path as passed over, and the archive has at most one
/// entry more than it had, behind those it had.
pub open spec fn not_added(before: ArchiveJobView, after: ArchiveJobView, path: Seq<char>) -> bool {
    &&& before.entries().is_prefix_of(after.entries())
    &&& after.entries().len() <= before.entries().len() + 1
    &&& after.written == before.written
    &&& after.skipped == before.skipped.push(path)
}

/// The job handed a directory to the archive. The entry is added where
/// its name is short enough and the archive takes it, and only there;
/// else the path is passed over.
pub open spec fn directory_tried(
    before: ArchiveJobView,
    after: ArchiveJobView,
    path: Seq<char>,
    name: Seq<char>,
) -> bool {
    if name_fits(name) && archive_takes_directory(before.archive, name) {
        added(before, after, name, Seq::empty())
    } else {
        not_added(before, after, path)
    }
}

/// The job handed a file to the archive, to be stored with the deflate
/// method. The entry is added where its name is short enough, the archive
/// takes a file of that name and, once it has, takes the bytes; and only
/// there. Else the path is passed over. `started` stands for the archive
/// as it is between the two, with the entry and no bytes in it yet.
pub open spec fn file_tried(
    before: ArchiveJobView,
    after: ArchiveJobView,
    path: Seq<char>,
    name: Seq<char>,
    data: Seq<u8>,
) -> bool {
    if name_fits(name) && archive_takes_file(before.archive, name, true) {
        exists|started: Archive|
            {
                &&& #[trigger] archive_entries(started) == before.entries().push(
                    (name, Seq::empty()),
                )
                &&& if archive_takes_data(started, data) {
                    added(before, after, name, data)
                } else {
                    not_added(before, after, path)
                }
            }
    } else {
        not_added(before, after, path)
    }
}

/// What one step makes of a job.
///
/// With nothing awaited the job goes on. A file that was found is to be
/// read. A directory that was found is to be read as well, and is handed
/// to the archive as an entry of its own unless it is an input. The bytes
/// of a file are handed to the archive under its name, the children of a
/// directory are put on what waits, and the job goes on. On every other
/// report the path is passed over and the job goes on.
pub open spec fn stepped(
    before: ArchiveJobView,
    event: ArchiveEventView,
    after: ArchiveJobView,
    action: ArchiveActionView,
) -> bool {
    match before.awaited {
        None => went_on(before.pending, after, action) && archive_unchanged(before, after),
        Some(item) => match event {
            ArchiveEventView::Found(Stat::File) => after == before && action
                == ArchiveActionView::ReadFile(item.path),
            ArchiveEventView::Found(Stat::Directory) => {
                &&& action == ArchiveActionView::ReadDirectory(item.path)
                &&& after.pending == before.pending
                &&& after.awaited == before.awaited
                &&& if item.top {
                    archive_unchanged(before, after)
                } else {
                    directory_tried(before, after, item.path, item.name + "/"@)
                }
            },
            ArchiveEventView::FileRead(Some(bytes)) => went_on(before.pending, after, action)
                && file_tried(before, after, item.path, item.name, bytes),
            ArchiveEventView::DirectoryRead(Some(children)) => went_on(
                before.pending + waiting_children(item, children),
                after,
                action,
            ) && archive_unchanged(before, after),
            _ => went_on(before.pending, after, action) && passed_over(before, after, item.path),
        },
    }
}

impl ArchiveJob {
    /// A job for the given inputs, nothing done yet.
    pub fn new(inputs: Vec<String>) -> (job: ArchiveJob)
        ensures
            job@.entries() == Seq::<(Seq<char>, Seq<u8>)>::empty(),
            job@.pending == waiting_inputs(string_views(inputs@)),
            job@.awaited is None,
            job@.written == Seq::<Seq<char>>::empty(),
            job@.skipped == Seq::<Seq<char>>::empty(),
    {
        let mut pending: Vec<Pending> = Vec::new();
        let ghost all = string_views(inputs@);
        let mut i: usize = inputs.len();
        assert(all.skip(i as int) == Seq::<Seq<char>>::empty());
        assert(pending_views(pending@) == Seq::<PendingView>::empty());
        while i > 0
            invariant
                i <= inputs.len(),
                all == string_views(inputs@),
                pending_views(pending@) == waiting_inputs(all.skip(i as int)),
            decreases i,
        {
            i -= 1;
            let ghost rest = all.skip(i as int);
            assert(rest.skip(1) == all.skip(i + 1));
            assert(rest[0] == inputs@[i as int]@);
            let at = location_of(inputs[i].as_str());
            let name = if at.len() > 0 {
                string_of(at[at.len() - 1].as_slice())
            } else {
                "file".to_owned()
            };
            assert(name@ == base_name(inputs@[i as int]@));
            let ghost before = pending@;
            let item = Pending { path: inputs[i].clone(), name, top: true };
            pending.push(item);
            assert(pending_views(pending@) == pending_views(before).push(item@));
        }
        assert(all.skip(0) == all);
        let job = ArchiveJob {
            archive: new_archive(),
            pending,
            awaited: None,
            written: Vec::new(),
            skipped: Vec::new(),
        };
        assert(string_views(job.written@) == Seq::<Seq<char>>::empty());
        assert(string_views(job.skipped@) == Seq::<Seq<char>>::empty());
        job
    }

    /// The names of the entries that the job added to the archive.
    pub fn written(&self) -> (names: &Vec<String>)
        ensures
            string_views(names@) == self@.written,
    {
        &self.written
    }

    /// The paths of what the job passed over.
    pub fn skipped(&self) -> (paths: &Vec<String>)
        ensures
            string_views(paths@) == self@.skipped,
    {
        &self.skipped
    }

    fn advance(&mut self) -> (action: ArchiveAction)
        ensures
            went_on(old(self)@.pending, final(self)@, action@),
            archive_unchanged(old(self)@, final(self)@),
    {
        let ghost before = self.pending@;
        match self.pending.pop() {
            Some(item) => {
                assert(pending_views(self.pending@) == pending_views(before).drop_last());
                let action = ArchiveAction::Look(item.path.clone());
                self.awaited = Some(item);
                action
            },
            None => {
                self.awaited = None;
                ArchiveAction::Finish
            },
        }
    }

    fn pass_over(&mut self, path: String)
        ensures
            passed_over(old(self)@, final(self)@, path@),
            final(self)@.pending == old(self)@.pending,
            final(self)@.awaited == old(self)@.awaited,
    {
        let ghost before = self.skipped@;
        self.skipped.push(path);
        assert(string_views(self.skipped@) == string_views(before).push(path@));
    }

    /// Lists an entry as written where it was added, and its path as
    /// passed over where it was not.
    fn record(&mut self, path: &str, name: String, added: bool)
        ensures
            final(self)@.archive == old(self)@.archive,
            final(self)@.pending == old(self)@.pending,
            final(self)@.awaited == old(self)@.awaited,
            final(self)@.written == if added {
                old(self)@.written.push(name@)
            } else {
                old(self)@.written
            },
            final(self)@.skipped == if added {
                old(self)@.skipped
            } else {
                old(self)@.skipped.push(path@)
            },
    {
        if added {
            let ghost before = self.written@;
            self.written.push(name);
            assert(string_views(self.written@) == string_views(before).push(name@));
        } else {
            let ghost before = self.skipped@;
            self.skipped.push(path.to_owned());
            assert(string_views(self.skipped@) == string_views(before).push(path@));
        }
    }

    /// Hands a directory to the archive, as an entry without bytes whose
    /// name ends in a slash.
    fn add_directory(&mut self, path: &str, name: String)
        requires
            name@.len() > 0,
            name@.last() == '/',
        ensures
            directory_tried(old(self)@, final(self)@, path@, name@),
            final(self)@.pending == old(self)@.pending,
            final(self)@.awaited == old(self)@.awaited,
    {
        let added = name.as_str().len() <= MAX_NAME_BYTES && add_archive_directory(
            &mut self.archive,
            name.as_str(),
        );
        self.record(path, name, added);
    }

    /// Hands a file to the archive: first its name, with the deflate
    /// method, then its bytes.
    fn add_file(&mut self, path: &str, name: String, data: &[u8])
        ensures
            file_tried(old(self)@, final(self)@, path@, name@, data@),
            final(self)@.pending == old(self)@.pending,
            final(self)@.awaited == old(self)@.awaited,
    {
        let ghost entries = archive_entries(self.archive);
        let fits = name.as_str().len() <= MAX_NAME_BYTES;
        let started = fits && start_archive_file(
            &mut self.archive,
            name.as_str(),
            Compression::Deflated,
        );
        let ghost between = self.archive;
        let added = started && write_archive_data(&mut self.archive, data);
        proof {
            if started {
                assert(entries.push((name@, Seq::<u8>::empty())).drop_last() == entries);
                assert(Seq::<u8>::empty() + data@ == data@);
                if data@.len() == 0 {
                    assert(data@ == Seq::<u8>::empty());
                }
                assert(archive_entries(between) == entries.push((name@, Seq::<u8>::empty())));
                assert(added == archive_takes_data(between, data@));
            }
        }
        self.record(path, name, added);
    }

    /// Puts the children of a directory on what waits, so that they go
    /// into the archive in their order, each with all that lies below it
    /// before the next.
    fn add_directory_to_zip(&mut self, dir: &Pending, children: &Vec<String>)
        ensures
            final(self)@ == (ArchiveJobView {
                pending: old(self)@.pending + waiting_children(dir@, string_views(children@)),
                ..old(self)@
            }),
    {
        let at = location_of(dir.path.as_str());
        let ghost all = string_views(children@);
        let ghost start = self.pending@;
        let mut i: usize = children.len();
        assert(all.skip(i as int) == Seq::<Seq<char>>::empty());
        assert(pending_views(self.pending@) == pending_views(start) + waiting_children(
            dir@,
            all.skip(i as int),
        ));
        while i > 0
            invariant
                i <= children.len(),
                all == string_views(children@),
                views(at@) == location(dir.path@),
                pending_views(self.pending@) == pending_views(start) + waiting_children(
                    dir@,
                    all.skip(i as int),
                ),
                self.awaited == old(self).awaited,
                self.archive == old(self).archive,
                self.written == old(self).written,
                self.skipped == old(self).skipped,
            decreases i,
        {
            i -= 1;
            let ghost rest = all.skip(i as int);
            assert(rest.skip(1) == all.skip(i + 1));
            assert(rest[0] == children@[i as int]@);
            let mut name: Vec<char> = Vec::new();
            if !dir.top {
                push_str(&mut name, dir.name.as_str());
                push_str(&mut name, "/");
            }
            push_str(&mut name, children[i].as_str());
            let child = Pending {
                path: child_path(&at, children[i].as_str()),
                name: string_of(name.as_slice()),
                top: false,
            };
            assert(child@ == child_of(dir@, children@[i as int]@));
            let ghost pushed = self.pending@;
            self.pending.push(child);
            assert(pending_views(self.pending@) == pending_views(pushed).push(child@));
        }
        assert(all.skip(0) == all);
    }

    /// Takes the job one step on, after `event`, and says what to do next.
    ///
    /// A file is read and then added under its name. A directory below an
    /// input is added as an entry of its own, and every directory is read
    /// and its children are put on what waits. What cannot be looked at or
    /// read, and what is neither file nor directory, is passed over.
    pub fn step(&mut self, event: ArchiveEvent) -> (action: ArchiveAction)
        ensures
            stepped(old(self)@, event@, final(self)@, action@),
    {
        let ghost before = self@;
        let item = match self.awaited.take() {
            Some(item) => item,
            None => {
                return self.advance();
            },
        };
        match event {
            ArchiveEvent::Found(Stat::File) => {
                let action = ArchiveAction::ReadFile(item.path.clone());
                self.awaited = Some(item);
                action
            },
            ArchiveEvent::Found(Stat::Directory) => {
                if !item.top {
                    let mut name: Vec<char> = Vec::new();
                    push_str(&mut name, item.name.as_str());
                    push_str(&mut name, "/");
                    proof {
                        reveal_strlit("/");
                    }
                    self.awaited = Some(item);
                    let item_path = match &self.awaited {
                        Some(i) => i.path.clone(),
                        None => String::new(),
                    };
                    assert(name@ == item.name@ + "/"@);
                    self.add_directory(item_path.as_str(), string_of(name.as_slice()));
                    ArchiveAction::ReadDirectory(item_path)
                } else {
                    let action = ArchiveAction::ReadDirectory(item.path.clone());
                    self.awaited = Some(item);
                    action
                }
            },
            ArchiveEvent::FileRead(Some(bytes)) => {
                self.add_file(item.path.as_str(), item.name, bytes.as_slice());
                self.advance()
            },
            ArchiveEvent::DirectoryRead(Some(children)) => {
                self.add_directory_to_zip(&item, &children);
                self.advance()
            },
            _ => {
                self.pass_over(item.path);
                self.advance()
            },
        }
    }

    /// Finishes the archive and makes the answer: the archive as an
    /// attachment, or 500 where it could not be finished.
    pub fn finish(self) -> (reply: Reply)
        ensures
            reply@ == archive_reply(archive_bytes_of(self)),
    {
        match finish_archive(self.archive) {
            Some(bytes) => {
                let reply = Reply { status: OK, headers: Vec::new(), body: Body::Bytes(bytes) };
                let reply = reply.with_header("content-type", "application/zip".to_owned());
                let reply = reply.with_header(
                    "content-disposition",
                    "attachment; filename=\"download.zip\"".to_owned(),
                );
                assert(reply@.headers == archive_headers());
                reply
            },
            None => Reply::text(INTERNAL_SERVER_ERROR, "Failed to create ZIP archive"),
        }
    }
}

/// The bytes that the archive of a job comes to when it is finished,
/// `None` where it cannot be finished.
pub closed spec fn archive_bytes_of(job: ArchiveJob) -> Option<Seq<u8>> {
    archive_bytes(job.archive)
}

pub open spec fn archive_headers() -> Seq<(Seq<char>, Seq<char>)> {
    seq![
        ("content-type"@, "application/zip"@),
        ("content-disposition"@, "attachment; filename=\"download.zip\""@),
    ]
}

/// The answer to a request for an archive.
pub open spec fn archive_reply(bytes: Option<Seq<u8>>) -> ReplyView {
    match bytes {
        Some(bytes) => ReplyView { status: OK, headers: archive_headers(), body: BodyView::Bytes(bytes) },
        None => text_reply(INTERNAL_SERVER_ERROR, "Failed to create ZIP archive"@),
    }
}

/// No step takes anything back: what the archive held it still holds, in
/// the same place, and the lists of what was written and of what was
/// passed over only grow.
pub proof fn step_keeps_what_was_done(
    before: ArchiveJobView,
    event: ArchiveEventView,
    after: ArchiveJobView,
    action: ArchiveActionView,
)
    requires
        stepped(before, event, after, action),
    ensures
        before.entries().is_prefix_of(after.entries()),
        before.written.is_prefix_of(after.written),
        before.skipped.is_prefix_of(after.skipped),
        after.entries().len() <= before.entries().len() + 1,
        after.written.len() + after.skipped.len() <= before.written.len() + before.skipped.len() + 1,
{
}

} // verus!
