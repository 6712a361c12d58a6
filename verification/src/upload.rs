//! Storing the files of a multipart upload.
//!
//! The parts arrive one by one and each file part is stored before the
//! next part is looked at. What is read and written lies with the caller;
//! what to do next is decided here, from the state of the upload and from
//! what the caller reports of its last move.

use crate::kinds::last_dot;
use crate::paths::{
    lies_under, location, location_is_made_of_names, path_of, resolved, resolved_from,
    resolved_lies_under_root, Root,
};
use crate::reply::{json_reply, text_reply, Body, BodyView, Reply, ReplyView, BAD_REQUEST, FORBIDDEN,
    INTERNAL_SERVER_ERROR, OK};
use crate::text::{
    chars_of, decimal, is_word, push_chars, push_decimal, push_str, string_of,
};
use crate::trusted::{percent_decode, percent_decoded};
use crate::types::ListQuery;
use vstd::prelude::*;

verus! {

/// The number that tells a second file of one name from the first: the
/// last six decimal places of the time in nanoseconds.
pub open spec fn suffix_of(nanos: nat) -> nat {
    nanos % 1_000_000
}

/// The name under which a file is stored when its own name is taken: an
/// underscore and the suffix go before the last dot of the name, or behind
/// the name where it has no dot.
pub open spec fn alternate_name(filename: Seq<char>, nanos: nat) -> Seq<char> {
    if exists|d: int| last_dot(filename, d) {
        let d = choose|d: int| last_dot(filename, d);
        filename.take(d) + "_"@ + decimal(suffix_of(nanos)) + filename.skip(d)
    } else {
        filename + "_"@ + decimal(suffix_of(nanos))
    }
}

/// Makes the name for a file whose own name is taken.
pub fn timestamped_filename(filename: &str, nanos: u128) -> (name: String)
    ensures
        name@ == alternate_name(filename@, nanos as nat),
{
    let text = chars_of(filename);
    let suffix: u64 = (nanos % 1_000_000) as u64;
    let mut d: usize = text.len();
    let mut found: bool = false;
    while d > 0 && !found
        invariant
            d <= text.len(),
            forall|i: int| d <= i < text.len() ==> text@[i] != '.' || (found && i == d),
            found ==> d < text.len() && text@[d as int] == '.',
        decreases d + if found { 0int } else { 1int },
    {
        if text[d - 1] == '.' {
            found = true;
        }
        d -= 1;
    }
    let mut out: Vec<char> = Vec::new();
    if found {
        assert(last_dot(text@, d as int));
        let ghost at = choose|k: int| last_dot(text@, k);
        assert(at == d);
        let mut i: usize = 0;
        while i < d
            invariant
                i <= d <= text.len(),
                out@ == text@.take(i as int),
            decreases d - i,
        {
            out.push(text[i]);
            i += 1;
        }
        push_str(&mut out, "_");
        push_decimal(&mut out, suffix);
        let ghost head = out@;
        while i < text.len()
            invariant
                d <= i <= text.len(),
                out@ == head + text@.subrange(d as int, i as int),
            decreases text.len() - i,
        {
            out.push(text[i]);
            i += 1;
        }
        assert(text@.subrange(d as int, text.len() as int) == text@.skip(d as int));
    } else {
        assert(forall|k: int| !last_dot(text@, k));
        push_chars(&mut out, text.as_slice());
        push_str(&mut out, "_");
        push_decimal(&mut out, suffix);
    }
    string_of(out.as_slice())
}

/// The name for a file whose own name is taken is never that name.
pub proof fn alternate_name_differs(filename: Seq<char>, nanos: nat)
    ensures
        alternate_name(filename, nanos) != filename,
{
    reveal_strlit("_");
    let digits = decimal(suffix_of(nanos));
    if exists|d: int| last_dot(filename, d) {
        let d = choose|d: int| last_dot(filename, d);
        assert(alternate_name(filename, nanos).len() == filename.len() + 1 + digits.len());
    } else {
        assert(alternate_name(filename, nanos).len() == filename.len() + 1 + digits.len());
    }
}

/// Where an upload stands.
#[derive(Clone, Copy, Debug, PartialEq, Eq, Structural)]
pub enum Phase {
    /// The target directory is being created.
    Creating,
    /// The next part is awaited.
    Ready,
    /// A file is being created under the name of the part.
    Placing,
    /// The body of the part is being written.
    Writing,
    /// The upload has been answered.
    Done,
}

/// The state of an upload.
pub struct Upload {
    pub phase: Phase,
    /// The directory that the files go to.
    pub dir: String,
    /// The number of files stored so far.
    pub written: u64,
    /// The name of the part that is being stored.
    pub filename: String,
}

pub struct UploadView {
    pub phase: Phase,
    pub dir: Seq<char>,
    pub written: u64,
    pub filename: Seq<char>,
}

impl View for Upload {
    type V = UploadView;

    open spec fn view(&self) -> UploadView {
        UploadView {
            phase: self.phase,
            dir: self.dir@,
            written: self.written,
            filename: self.filename@,
        }
    }
}

/// What the caller reports.
pub enum UploadEvent {
    DirectoryCreated,
    /// The directory could not be created, with the error as text.
    DirectoryFailed(String),
    /// A part arrived, with the name of its field and its file name.
    Part { field: String, filename: Option<String> },
    /// The form has no more parts.
    EndOfParts,
    /// The form is malformed, between two parts or inside the body of
    /// one, with the error as text.
    Malformed(String),
    /// The file was created and did not exist before.
    Created,
    /// The file exists already; `nanos` is the time now in nanoseconds.
    AlreadyExists { nanos: u128 },
    /// The file could not be created, with the error as text.
    CreateFailed(String),
    /// The body was written in full.
    Written,
    /// The body could not be written, with the error as text.
    WriteFailed(String),
}

pub enum UploadEventView {
    DirectoryCreated,
    DirectoryFailed(Seq<char>),
    Part { field: Seq<char>, filename: Option<Seq<char>> },
    EndOfParts,
    Malformed(Seq<char>),
    Created,
    AlreadyExists { nanos: u128 },
    CreateFailed(Seq<char>),
    Written,
    WriteFailed(Seq<char>),
}

impl View for UploadEvent {
    type V = UploadEventView;

    open spec fn view(&self) -> UploadEventView {
        match self {
            UploadEvent::DirectoryCreated => UploadEventView::DirectoryCreated,
            UploadEvent::DirectoryFailed(e) => UploadEventView::DirectoryFailed(e@),
            UploadEvent::Part { field, filename } => UploadEventView::Part {
                field: field@,
                filename: match filename {
                    Some(f) => Some(f@),
                    None => None,
                },
            },
            UploadEvent::EndOfParts => UploadEventView::EndOfParts,
            UploadEvent::Malformed(e) => UploadEventView::Malformed(e@),
            UploadEvent::Created => UploadEventView::Created,
            UploadEvent::AlreadyExists { nanos } => UploadEventView::AlreadyExists {
                nanos: *nanos,
            },
            UploadEvent::CreateFailed(e) => UploadEventView::CreateFailed(e@),
            UploadEvent::Written => UploadEventView::Written,
            UploadEvent::WriteFailed(e) => UploadEventView::WriteFailed(e@),
        }
    }
}

/// What the caller is to do next.
pub enum UploadAction {
    /// Create the directory and all that leads to it.
    CreateDirectory(String),
    /// Read the next part of the form.
    NextPart,
    /// Create the file, and fail if it exists.
    CreateNew(String),
    /// Write the body of the part to the file just created.
    WriteBody,
    /// Write the body of the part to the file at this path.
    WriteFile(String),
    /// Send the answer; the upload is over.
    Finish(Reply),
}

pub enum UploadActionView {
    CreateDirectory(Seq<char>),
    NextPart,
    CreateNew(Seq<char>),
    WriteBody,
    WriteFile(Seq<char>),
    Finish(ReplyView),
}

impl View for UploadAction {
    type V = UploadActionView;

    open spec fn view(&self) -> UploadActionView {
        match self {
            UploadAction::CreateDirectory(p) => UploadActionView::CreateDirectory(p@),
            UploadAction::NextPart => UploadActionView::NextPart,
            UploadAction::CreateNew(p) => UploadActionView::CreateNew(p@),
            UploadAction::WriteBody => UploadActionView::WriteBody,
            UploadAction::WriteFile(p) => UploadActionView::WriteFile(p@),
            UploadAction::Finish(reply) => UploadActionView::Finish(reply@),
        }
    }
}

/// An upload in the given phase that is otherwise as `state`.
pub open spec fn in_phase(state: UploadView, phase: Phase) -> UploadView {
    UploadView { phase, ..state }
}

/// The end of an upload with the given answer.
pub open spec fn finished(state: UploadView, reply: ReplyView) -> (UploadView, UploadActionView) {
    (in_phase(state, Phase::Done), UploadActionView::Finish(reply))
}

/// The answer to an upload that went through.
pub open spec fn uploaded_reply(written: u64) -> ReplyView {
    ReplyView { status: OK, headers: Seq::empty(), body: BodyView::Uploaded(written) }
}

/// The start of an upload to the directory that the query names, the root
/// where it names none: the directory is created first, unless the path
/// leads out of the root.
pub open spec fn upload_start(root: Seq<Seq<char>>, path: Option<Seq<char>>) -> (
    UploadView,
    UploadActionView,
) {
    let dir = match path {
        Some(logical) => resolved(root, percent_decoded(logical)),
        None => Some(path_of(root)),
    };
    let fresh = UploadView { phase: Phase::Creating, dir: Seq::empty(), written: 0, filename: Seq::empty() };
    match dir {
        Some(dir) => (UploadView { dir, ..fresh }, UploadActionView::CreateDirectory(dir)),
        None => finished(fresh, json_reply(FORBIDDEN, "Access denied"@)),
    }
}

/// Where a file part goes, with the name under which it is stored.
pub open spec fn placed(root: Seq<Seq<char>>, state: UploadView, name: Seq<char>, create: bool)
    -> (UploadView, UploadActionView) {
    match resolved_from(root, location(state.dir), name) {
        Some(path) => if create {
            (
                UploadView { phase: Phase::Placing, filename: name, ..state },
                UploadActionView::CreateNew(path),
            )
        } else {
            (in_phase(state, Phase::Writing), UploadActionView::WriteFile(path))
        },
        None => finished(state, json_reply(FORBIDDEN, "Access denied"@)),
    }
}

/// The next state of an upload and the next move, after `event`.
///
/// Only a part in the field `file` that has a file name is stored. It is
/// created under its own name and must not exist; where it exists, it is
/// written under the alternate name instead. A file that leads out of the
/// root ends the upload with 403, any other failure to create or write
/// with 500. A malformed form ends it with 400, also where the form
/// breaks off inside the body of a part: the file of that part is not
/// counted. At the end of the form the answer is the number of files
/// stored. An event that the phase does not await ends the upload with
/// 500.
pub open spec fn upload_step(root: Seq<Seq<char>>, state: UploadView, event: UploadEventView) -> (
    UploadView,
    UploadActionView,
) {
    match (state.phase, event) {
        (Phase::Creating, UploadEventView::DirectoryCreated) => (
            in_phase(state, Phase::Ready),
            UploadActionView::NextPart,
        ),
        (Phase::Creating, UploadEventView::DirectoryFailed(e)) => finished(
            state,
            json_reply(INTERNAL_SERVER_ERROR, "Failed to create upload directory: "@ + e),
        ),
        (Phase::Ready, UploadEventView::Part { field, filename }) => match filename {
            Some(name) => if field == "file"@ {
                placed(root, state, name, true)
            } else {
                (state, UploadActionView::NextPart)
            },
            None => (state, UploadActionView::NextPart),
        },
        (Phase::Ready, UploadEventView::EndOfParts) => finished(state, uploaded_reply(state.written)),
        (Phase::Ready, UploadEventView::Malformed(e)) => finished(
            state,
            json_reply(BAD_REQUEST, "Failed to process upload: "@ + e),
        ),
        (Phase::Placing, UploadEventView::Malformed(e)) => finished(
            state,
            json_reply(BAD_REQUEST, "Failed to process upload: "@ + e),
        ),
        (Phase::Writing, UploadEventView::Malformed(e)) => finished(
            state,
            json_reply(BAD_REQUEST, "Failed to process upload: "@ + e),
        ),
        (Phase::Placing, UploadEventView::Created) => (
            in_phase(state, Phase::Writing),
            UploadActionView::WriteBody,
        ),
        (Phase::Placing, UploadEventView::AlreadyExists { nanos }) => placed(
            root,
            state,
            alternate_name(state.filename, nanos as nat),
            false,
        ),
        (Phase::Placing, UploadEventView::CreateFailed(e)) => finished(
            state,
            json_reply(INTERNAL_SERVER_ERROR, "Failed to save file: "@ + e),
        ),
        (Phase::Writing, UploadEventView::Written) => (
            UploadView {
                phase: Phase::Ready,
                written: if state.written < u64::MAX {
                    (state.written + 1) as u64
                } else {
                    state.written
                },
                ..state
            },
            UploadActionView::NextPart,
        ),
        (Phase::Writing, UploadEventView::WriteFailed(e)) => finished(
            state,
            json_reply(INTERNAL_SERVER_ERROR, "Failed to save file: "@ + e),
        ),
        _ => finished(state, text_reply(INTERNAL_SERVER_ERROR, "Unexpected event"@)),
    }
}

/// A message made of a fixed start and a detail.
fn message(start: &str, detail: &str) -> (m: String)
    ensures
        m@ == start@ + detail@,
{
    let mut out: Vec<char> = Vec::new();
    push_str(&mut out, start);
    push_str(&mut out, detail);
    string_of(out.as_slice())
}

fn uploaded(written: u64) -> (reply: Reply)
    ensures
        reply@ == uploaded_reply(written),
{
    let reply = Reply { status: OK, headers: Vec::new(), body: Body::Uploaded(written) };
    assert(reply@.headers == Seq::<(Seq<char>, Seq<char>)>::empty());
    reply
}

/// Starts an upload to the directory that the query names.
pub fn handle_upload(root: &Root, query: &ListQuery) -> (r: (Upload, UploadAction))
    ensures
        (r.0@, r.1@) == upload_start(root@, match query.path {
            Some(p) => Some(p@),
            None => None,
        }),
{
    let dir = match &query.path {
        Some(logical) => {
            let decoded = percent_decode(logical.as_str());
            root.resolve(decoded.as_str())
        },
        None => Some(root.path()),
    };
    match dir {
        Some(dir) => {
            let state = Upload {
                phase: Phase::Creating,
                dir: dir.clone(),
                written: 0,
                filename: String::new(),
            };
            (state, UploadAction::CreateDirectory(dir))
        },
        None => {
            let state = Upload {
                phase: Phase::Done,
                dir: String::new(),
                written: 0,
                filename: String::new(),
            };
            (state, UploadAction::Finish(Reply::json(FORBIDDEN, "Access denied")))
        },
    }
}

impl Upload {
    fn finish(self, reply: Reply) -> (r: (Upload, UploadAction))
        ensures
            (r.0@, r.1@) == finished(self@, reply@),
    {
        (
            Upload { phase: Phase::Done, dir: self.dir, written: self.written, filename: self.filename },
            UploadAction::Finish(reply),
        )
    }

    fn place(self, root: &Root, name: String, create: bool) -> (r: (Upload, UploadAction))
        ensures
            (r.0@, r.1@) == placed(root@, self@, name@, create),
    {
        match root.resolve_from(self.dir.as_str(), name.as_str()) {
            Some(path) => {
                if create {
                    (
                        Upload {
                            phase: Phase::Placing,
                            dir: self.dir,
                            written: self.written,
                            filename: name,
                        },
                        UploadAction::CreateNew(path),
                    )
                } else {
                    (
                        Upload {
                            phase: Phase::Writing,
                            dir: self.dir,
                            written: self.written,
                            filename: self.filename,
                        },
                        UploadAction::WriteFile(path),
                    )
                }
            },
            None => self.finish(Reply::json(FORBIDDEN, "Access denied")),
        }
    }

    /// Takes the upload one step on, after `event`.
    pub fn step(self, root: &Root, event: UploadEvent) -> (r: (Upload, UploadAction))
        ensures
            (r.0@, r.1@) == upload_step(root@, self@, event@),
    {
        match (self.phase, event) {
            (Phase::Creating, UploadEvent::DirectoryCreated) => (
                Upload {
                    phase: Phase::Ready,
                    dir: self.dir,
                    written: self.written,
                    filename: self.filename,
                },
                UploadAction::NextPart,
            ),
            (Phase::Creating, UploadEvent::DirectoryFailed(e)) => {
                let text = message("Failed to create upload directory: ", e.as_str());
                self.finish(Reply::json(INTERNAL_SERVER_ERROR, text.as_str()))
            },
            (Phase::Ready, UploadEvent::Part { field, filename }) => {
                let field_chars = chars_of(field.as_str());
                match filename {
                    Some(name) => {
                        if is_word(field_chars.as_slice(), "file") {
                            self.place(root, name, true)
                        } else {
                            (self, UploadAction::NextPart)
                        }
                    },
                    None => (self, UploadAction::NextPart),
                }
            },
            (Phase::Ready, UploadEvent::EndOfParts) => {
                let reply = uploaded(self.written);
                self.finish(reply)
            },
            (Phase::Ready, UploadEvent::Malformed(e)) => {
                let text = message("Failed to process upload: ", e.as_str());
                self.finish(Reply::json(BAD_REQUEST, text.as_str()))
            },
            (Phase::Placing, UploadEvent::Malformed(e)) => {
                let text = message("Failed to process upload: ", e.as_str());
                self.finish(Reply::json(BAD_REQUEST, text.as_str()))
            },
            (Phase::Writing, UploadEvent::Malformed(e)) => {
                let text = message("Failed to process upload: ", e.as_str());
                self.finish(Reply::json(BAD_REQUEST, text.as_str()))
            },
            (Phase::Placing, UploadEvent::Created) => (
                Upload {
                    phase: Phase::Writing,
                    dir: self.dir,
                    written: self.written,
                    filename: self.filename,
                },
                UploadAction::WriteBody,
            ),
            (Phase::Placing, UploadEvent::AlreadyExists { nanos }) => {
                let name = timestamped_filename(self.filename.as_str(), nanos);
                self.place(root, name, false)
            },
            (Phase::Placing, UploadEvent::CreateFailed(e)) => {
                let text = message("Failed to save file: ", e.as_str());
                self.finish(Reply::json(INTERNAL_SERVER_ERROR, text.as_str()))
            },
            (Phase::Writing, UploadEvent::Written) => (
                Upload {
                    phase: Phase::Ready,
                    dir: self.dir,
                    written: if self.written < u64::MAX {
                        self.written + 1
                    } else {
                        self.written
                    },
                    filename: self.filename,
                },
                UploadAction::NextPart,
            ),
            (Phase::Writing, UploadEvent::WriteFailed(e)) => {
                let text = message("Failed to save file: ", e.as_str());
                self.finish(Reply::json(INTERNAL_SERVER_ERROR, text.as_str()))
            },
            _ => self.finish(Reply::text(INTERNAL_SERVER_ERROR, "Unexpected event")),
        }
    }
}

/// Every file that an upload creates or writes lies under the root.
pub proof fn upload_stays_under_root(root: Seq<Seq<char>>, state: UploadView, event: UploadEventView)
    ensures
        match upload_step(root, state, event).1 {
            UploadActionView::CreateNew(path) => lies_under(root, path),
            UploadActionView::WriteFile(path) => lies_under(root, path),
            _ => true,
        },
{
    location_is_made_of_names(Seq::empty(), state.dir);
    match event {
        UploadEventView::Part { field, filename } => {
            if filename is Some {
                resolved_lies_under_root(root, location(state.dir), filename->0);
            }
        },
        UploadEventView::AlreadyExists { nanos } => {
            resolved_lies_under_root(
                root,
                location(state.dir),
                alternate_name(state.filename, nanos as nat),
            );
        },
        _ => {},
    }
}

/// A form that breaks off, wherever it does, ends the upload with 400, and
/// the part that was being stored adds nothing to the count.
pub proof fn malformed_form_is_bad_request(root: Seq<Seq<char>>, state: UploadView, e: Seq<char>)
    requires
        state.phase == Phase::Ready || state.phase == Phase::Placing || state.phase
            == Phase::Writing,
    ensures
        upload_step(root, state, UploadEventView::Malformed(e)).1 == UploadActionView::Finish(
            json_reply(BAD_REQUEST, "Failed to process upload: "@ + e),
        ),
        upload_step(root, state, UploadEventView::Malformed(e)).0.written == state.written,
        upload_step(root, state, UploadEventView::Malformed(e)).0.phase == Phase::Done,
{
}

} // verus!
