//! Serving one path of the tree: a file, whole or in part, or a page that
//! lists a directory.

use crate::encode::{encoded_name, push_encoded};
use crate::order::{arrange, arranged, line_views, unkeyed, Keyed, Line};
use crate::paths::{lies_under, path_of, resolved, Root};
use crate::range::{parse_range, range_of};
use crate::reply::{
    text_reply, BodyView, Reply, ReplyView, Body, FORBIDDEN, INTERNAL_SERVER_ERROR, NOT_FOUND, OK,
    PARTIAL_CONTENT,
};
use crate::text::{chars_of, decimal, decimal_string, is_word, push_chars, push_decimal, push_str,
    string_of};
use crate::trusted::{
    guess_content_type, guessed_content_type, lowercase, lowercased, percent_decode,
    percent_decoded,
};
use vstd::prelude::*;

verus! {

/// The path that the decoded tail of a request is served from: the root
/// for the empty tail and for a lone slash, else where the tail resolves
/// to, and `None` where that leads out of the root.
pub open spec fn served_path(root: Seq<Seq<char>>, decoded: Seq<char>) -> Option<Seq<char>> {
    if decoded.len() == 0 || decoded == "/"@ {
        Some(path_of(root))
    } else {
        resolved(root, decoded)
    }
}

/// Finds the path to serve for the decoded tail of a request.
pub fn serve_path(root: &Root, decoded: &str) -> (r: Option<String>)
    ensures
        match r {
            Some(p) => served_path(root@, decoded@) == Some(p@) && lies_under(root@, p@),
            None => served_path(root@, decoded@) is None,
        },
{
    let text = chars_of(decoded);
    if text.len() == 0 || is_word(text.as_slice(), "/") {
        Some(root.path())
    } else {
        root.resolve(decoded)
    }
}

/// Finds the path to serve for the tail of a request as it came. A tail
/// that leads out of the root is answered at once, with 403.
pub fn serve_target(root: &Root, tail: &str) -> (r: Result<String, Reply>)
    ensures
        match r {
            Ok(p) => served_path(root@, percent_decoded(tail@)) == Some(p@) && lies_under(
                root@,
                p@,
            ),
            Err(reply) => served_path(root@, percent_decoded(tail@)) is None && reply@
                == text_reply(FORBIDDEN, "Access denied"@),
        },
{
    let decoded = percent_decode(tail);
    match serve_path(root, decoded.as_str()) {
        Some(p) => Ok(p),
        None => Err(Reply::text(FORBIDDEN, "Access denied")),
    }
}

/// What was found at a path.
#[derive(Clone, Copy, Debug, PartialEq, Eq, Structural)]
pub enum Found {
    Missing,
    Directory,
    File { size: u64 },
}

/// How a file is served.
pub enum FilePlan {
    /// The whole file, with status 200.
    Whole { content_type: String, length: u64 },
    /// The bytes from `start` to `end`, both included, with status 206.
    Part { content_type: String, start: u64, end: u64, file_size: u64 },
}

pub enum FilePlanView {
    Whole { content_type: Seq<char>, length: u64 },
    Part { content_type: Seq<char>, start: u64, end: u64, file_size: u64 },
}

impl View for FilePlan {
    type V = FilePlanView;

    open spec fn view(&self) -> FilePlanView {
        match self {
            FilePlan::Whole { content_type, length } => FilePlanView::Whole {
                content_type: content_type@,
                length: *length,
            },
            FilePlan::Part { content_type, start, end, file_size } => FilePlanView::Part {
                content_type: content_type@,
                start: *start,
                end: *end,
                file_size: *file_size,
            },
        }
    }
}

impl FilePlanView {
    /// A plan asks for an interval that lies in the file.
    pub open spec fn well_formed(self) -> bool {
        match self {
            FilePlanView::Whole { .. } => true,
            FilePlanView::Part { start, end, file_size, .. } => start <= end < file_size,
        }
    }
}

pub open spec fn text_of(header: Option<&str>) -> Option<Seq<char>> {
    match header {
        Some(h) => Some(h@),
        None => None,
    }
}

/// How the file at `path` with `file_size` bytes is served under a
/// request with the given `Range` header: in part where the header is
/// honoured, else whole.
pub open spec fn file_plan(path: Seq<char>, file_size: u64, header: Option<Seq<char>>)
    -> FilePlanView {
    let honoured = match header {
        Some(h) => range_of(h, file_size),
        None => None,
    };
    match honoured {
        Some((start, end)) => FilePlanView::Part {
            content_type: guessed_content_type(path),
            start,
            end,
            file_size,
        },
        None => FilePlanView::Whole { content_type: guessed_content_type(path), length: file_size },
    }
}

/// Plans how to serve the file at `path`.
pub fn serve_file(path: &str, file_size: u64, range_header: Option<&str>) -> (plan: FilePlan)
    ensures
        plan@ == file_plan(path@, file_size, text_of(range_header)),
        plan@.well_formed(),
{
    let content_type = guess_content_type(path);
    let honoured = match range_header {
        Some(h) => parse_range(h, file_size),
        None => None,
    };
    match honoured {
        Some((start, end)) => FilePlan::Part { content_type, start, end, file_size },
        None => FilePlan::Whole { content_type, length: file_size },
    }
}

/// What the next move is once it is known what lies at the path.
pub enum ServeStep {
    /// Nothing more is read: this is the answer.
    Answer(Reply),
    /// The children of the directory are to be read.
    ReadDirectory,
    /// The file is to be read as the plan says.
    ReadFile(FilePlan),
}

pub enum ServeStepView {
    Answer(ReplyView),
    ReadDirectory,
    ReadFile(FilePlanView),
}

impl View for ServeStep {
    type V = ServeStepView;

    open spec fn view(&self) -> ServeStepView {
        match self {
            ServeStep::Answer(reply) => ServeStepView::Answer(reply@),
            ServeStep::ReadDirectory => ServeStepView::ReadDirectory,
            ServeStep::ReadFile(plan) => ServeStepView::ReadFile(plan@),
        }
    }
}

pub open spec fn next_step(path: Seq<char>, found: Found, header: Option<Seq<char>>)
    -> ServeStepView {
    match found {
        Found::Missing => ServeStepView::Answer(text_reply(NOT_FOUND, "Not found"@)),
        Found::Directory => ServeStepView::ReadDirectory,
        Found::File { size } => ServeStepView::ReadFile(file_plan(path, size, header)),
    }
}

/// Decides what to do with a path under the root once it is known what
/// lies there: a missing path is answered with 404, a directory is
/// listed, a file is served.
pub fn handle_serve(path: &str, found: Found, range_header: Option<&str>) -> (step: ServeStep)
    ensures
        step@ == next_step(path@, found, text_of(range_header)),
{
    match found {
        Found::Missing => ServeStep::Answer(Reply::text(NOT_FOUND, "Not found")),
        Found::Directory => ServeStep::ReadDirectory,
        Found::File { size } => ServeStep::ReadFile(serve_file(path, size, range_header)),
    }
}

/// The headers that every served file carries, and its length.
pub open spec fn file_headers(content_type: Seq<char>, length: nat) -> Seq<(Seq<char>, Seq<char>)> {
    seq![
        ("content-type"@, content_type),
        ("accept-ranges"@, "bytes"@),
        ("content-length"@, decimal(length)),
    ]
}

/// The answer for a whole file: its bytes with status 200, or 404 where
/// it could not be read.
pub open spec fn whole_file_reply(content_type: Seq<char>, length: u64, read: Option<Seq<u8>>)
    -> ReplyView {
    match read {
        Some(bytes) => ReplyView {
            status: OK,
            headers: file_headers(content_type, length as nat),
            body: BodyView::Bytes(bytes),
        },
        None => text_reply(NOT_FOUND, "File not found"@),
    }
}

/// Answers a request for a whole file with what was read of it.
pub fn serve_whole_file(content_type: &str, length: u64, read: Option<Vec<u8>>) -> (reply: Reply)
    ensures
        reply@ == whole_file_reply(content_type@, length, match read {
            Some(bytes) => Some(bytes@),
            None => None,
        }),
{
    match read {
        Some(bytes) => {
            let reply = Reply { status: OK, headers: Vec::new(), body: Body::Bytes(bytes) };
            let reply = reply.with_header("content-type", content_type.to_owned());
            let reply = reply.with_header("accept-ranges", "bytes".to_owned());
            let reply = reply.with_header("content-length", decimal_string(length));
            assert(reply@.headers == file_headers(content_type@, length as nat));
            reply
        },
        None => Reply::text(NOT_FOUND, "File not found"),
    }
}

/// How the read of a part of a file ended.
pub enum RangeRead {
    /// The file could not be opened.
    OpenFailed,
    /// The start of the interval could not be reached.
    SeekFailed,
    /// The interval could not be read in full.
    ReadFailed,
    /// The bytes that were read.
    Done(Vec<u8>),
}

pub enum RangeReadView {
    OpenFailed,
    SeekFailed,
    ReadFailed,
    Done(Seq<u8>),
}

impl View for RangeRead {
    type V = RangeReadView;

    open spec fn view(&self) -> RangeReadView {
        match self {
            RangeRead::OpenFailed => RangeReadView::OpenFailed,
            RangeRead::SeekFailed => RangeReadView::SeekFailed,
            RangeRead::ReadFailed => RangeReadView::ReadFailed,
            RangeRead::Done(bytes) => RangeReadView::Done(bytes@),
        }
    }
}

/// The value of the `content-range` header.
pub open spec fn content_range(start: u64, end: u64, file_size: u64) -> Seq<char> {
    "bytes "@ + decimal(start as nat) + "-"@ + decimal(end as nat) + "/"@ + decimal(
        file_size as nat,
    )
}

/// The answer for a part of a file. With as many bytes as the interval
/// holds it is these bytes with status 206; a read that brought another
/// number of bytes counts as failed.
pub open spec fn range_reply(
    content_type: Seq<char>,
    start: u64,
    end: u64,
    file_size: u64,
    read: RangeReadView,
) -> ReplyView {
    match read {
        RangeReadView::OpenFailed => text_reply(NOT_FOUND, "File not found"@),
        RangeReadView::SeekFailed => text_reply(INTERNAL_SERVER_ERROR, "Seek failed"@),
        RangeReadView::ReadFailed => text_reply(INTERNAL_SERVER_ERROR, "Read failed"@),
        RangeReadView::Done(bytes) => if bytes.len() == end - start + 1 {
            ReplyView {
                status: PARTIAL_CONTENT,
                headers: seq![
                    ("content-type"@, content_type),
                    ("accept-ranges"@, "bytes"@),
                    ("content-range"@, content_range(start, end, file_size)),
                    ("content-length"@, decimal((end - start + 1) as nat)),
                ],
                body: BodyView::Bytes(bytes),
            }
        } else {
            text_reply(INTERNAL_SERVER_ERROR, "Read failed"@)
        },
    }
}

/// Answers a request for the bytes `range.0` to `range.1` of a file with
/// what was read of them.
pub fn serve_file_range(content_type: &str, range: (u64, u64), file_size: u64, read: RangeRead) -> (reply:
    Reply)
    requires
        range.0 <= range.1 < file_size,
    ensures
        reply@ == range_reply(content_type@, range.0, range.1, file_size, read@),
{
    let (start, end) = range;
    let content_length: u64 = end - start + 1;
    match read {
        RangeRead::OpenFailed => Reply::text(NOT_FOUND, "File not found"),
        RangeRead::SeekFailed => Reply::text(INTERNAL_SERVER_ERROR, "Seek failed"),
        RangeRead::ReadFailed => Reply::text(INTERNAL_SERVER_ERROR, "Read failed"),
        RangeRead::Done(bytes) => {
            if bytes.len() as u64 != content_length {
                return Reply::text(INTERNAL_SERVER_ERROR, "Read failed");
            }
            let mut value: Vec<char> = Vec::new();
            push_str(&mut value, "bytes ");
            push_decimal(&mut value, start);
            push_str(&mut value, "-");
            push_decimal(&mut value, end);
            push_str(&mut value, "/");
            push_decimal(&mut value, file_size);
            assert(value@ == content_range(start, end, file_size));
            let reply = Reply { status: PARTIAL_CONTENT, headers: Vec::new(), body: Body::Bytes(bytes) };
            let reply = reply.with_header("content-type", content_type.to_owned());
            let reply = reply.with_header("accept-ranges", "bytes".to_owned());
            let reply = reply.with_header("content-range", string_of(value.as_slice()));
            let reply = reply.with_header("content-length", decimal_string(content_length));
            assert(reply@.headers == range_reply(
                content_type@,
                start,
                end,
                file_size,
                read@,
            ).headers);
            reply
        },
    }
}

/// The answer to a request for a part of a file is the requested bytes
/// and nothing else: as many as the interval holds, under status 206 and
/// with the interval in the `content-range` header.
pub proof fn part_reply_holds_interval(
    content_type: Seq<char>,
    start: u64,
    end: u64,
    file_size: u64,
    bytes: Seq<u8>,
)
    requires
        start <= end < file_size,
    ensures
        ({
            let reply = range_reply(content_type, start, end, file_size, RangeReadView::Done(bytes));
            reply.status == PARTIAL_CONTENT ==> reply.body == BodyView::Bytes(bytes) && bytes.len()
                == end - start + 1 && reply.headers[2] == ("content-range"@, content_range(
                start,
                end,
                file_size,
            ))
        }),
{
}

/// Under a header that is not honoured the whole file is served: the plan
/// is for the whole file, and the answer to a read that went well is the
/// file with status 200.
pub proof fn unsupported_range_serves_whole_file(
    path: Seq<char>,
    file_size: u64,
    header: Seq<char>,
    bytes: Seq<u8>,
)
    requires
        range_of(header, file_size) is None,
    ensures
        file_plan(path, file_size, Some(header)) == (FilePlanView::Whole {
            content_type: guessed_content_type(path),
            length: file_size,
        }),
        whole_file_reply(guessed_content_type(path), file_size, Some(bytes)).status == OK,
        whole_file_reply(guessed_content_type(path), file_size, Some(bytes)).body
            == BodyView::Bytes(bytes),
{
}

/// One child of a directory on the page that lists it: its name, whether
/// it is a directory, and its size.
pub open spec fn item_views(v: Seq<(String, bool, u64)>) -> Seq<(Seq<char>, bool, u64)> {
    Seq::new(v.len(), |i: int| (v[i].0@, v[i].1, v[i].2))
}

/// The line of the page for one child: a link to its percent-encoded name
/// under its name as it is, each with a slash behind it for a directory.
pub open spec fn index_line(name: Seq<char>, is_dir: bool) -> Seq<char> {
    let slash = if is_dir {
        "/"@
    } else {
        Seq::empty()
    };
    "<li><a href=\""@ + encoded_name(name) + slash + "\"> "@ + name + slash + "</a></li>\n"@
}

pub open spec fn index_lines(items: Seq<(Seq<char>, bool, u64)>) -> Seq<char>
    decreases items.len(),
{
    if items.len() == 0 {
        Seq::empty()
    } else {
        index_lines(items.drop_last()) + index_line(items.last().0, items.last().1)
    }
}

/// The page that lists the directory shown as `path`.
pub open spec fn index_page(path: Seq<char>, items: Seq<(Seq<char>, bool, u64)>) -> Seq<char> {
    let shown = if path.len() == 0 {
        "/"@
    } else {
        path
    };
    "<!DOCTYPE HTML PUBLIC \"-//W3C//DTD HTML 3.2 Final//EN\">\n<html>\n <head>\n  <title>Index of "@
        + shown + "</title>\n </head>\n <body>\n<h1>Index of "@ + shown + "</h1>\n<ul>"@
        + index_lines(items) + "</ul>\n</body></html>"@
}

/// Writes the page that lists a directory, its children in the order
/// given.
pub fn generate_directory_listing(path: &str, items: &[(String, bool, u64)]) -> (page: String)
    ensures
        page@ == index_page(path@, item_views(items@)),
{
    let mut out: Vec<char> = Vec::new();
    let shown = chars_of(if path.is_empty() {
        "/"
    } else {
        path
    });
    push_str(
        &mut out,
        "<!DOCTYPE HTML PUBLIC \"-//W3C//DTD HTML 3.2 Final//EN\">\n<html>\n <head>\n  <title>Index of ",
    );
    push_chars(&mut out, shown.as_slice());
    push_str(&mut out, "</title>\n </head>\n <body>\n<h1>Index of ");
    push_chars(&mut out, shown.as_slice());
    push_str(&mut out, "</h1>\n<ul>");
    let ghost head = out@;
    let ghost all = item_views(items@);
    let mut i: usize = 0;
    assert(all.take(0) == Seq::<(Seq<char>, bool, u64)>::empty());
    while i < items.len()
        invariant
            i <= items.len(),
            all == item_views(items@),
            out@ == head + index_lines(all.take(i as int)),
        decreases items.len() - i,
    {
        let item = &items[i];
        let ghost seen = all.take(i + 1);
        assert(seen.drop_last() == all.take(i as int));
        assert(seen.last() == (item.0@, item.1, item.2));
        let ghost before = out@;
        push_str(&mut out, "<li><a href=\"");
        push_encoded(&mut out, item.0.as_str());
        if item.1 {
            push_str(&mut out, "/");
        }
        push_str(&mut out, "\"> ");
        push_str(&mut out, item.0.as_str());
        if item.1 {
            push_str(&mut out, "/");
        }
        push_str(&mut out, "</a></li>\n");
        assert(out@ == before + index_line(item.0@, item.1));
        i += 1;
    }
    assert(all.take(items.len() as int) == all);
    push_str(&mut out, "</ul>\n</body></html>");
    string_of(out.as_slice())
}

/// A child of a directory with what it is ordered by on the page:
/// directories before files, each group by name without regard to case.
pub open spec fn index_key(item: (Seq<char>, bool, u64)) -> Line<(Seq<char>, bool, u64)> {
    Line {
        group: if item.1 {
            0
        } else {
            1
        },
        folded: lowercased(item.0),
        item,
    }
}

pub open spec fn index_keys(items: Seq<(Seq<char>, bool, u64)>) -> Seq<
    Line<(Seq<char>, bool, u64)>,
> {
    Seq::new(items.len(), |i: int| index_key(items[i]))
}

/// A path without the slashes that it starts with.
pub open spec fn without_leading_slashes(path: Seq<char>) -> Seq<char>
    decreases path.len(),
{
    if path.len() > 0 && path[0] == '/' {
        without_leading_slashes(path.skip(1))
    } else {
        path
    }
}

/// The path under which a directory is shown on its page: the requested
/// path, made to start with exactly one slash.
pub open spec fn display_path(requested: Seq<char>) -> Seq<char> {
    "/"@ + without_leading_slashes(requested)
}

/// The answer to a request for a directory: the page that lists its
/// children in order, or 500 where they could not be read.
pub open spec fn directory_reply(requested: Seq<char>, items: Option<Seq<(Seq<char>, bool, u64)>>)
    -> ReplyView {
    match items {
        Some(children) => ReplyView {
            status: OK,
            headers: seq![("content-type"@, "text/html; charset=utf-8"@)],
            body: BodyView::Text(
                index_page(display_path(requested), unkeyed(arranged(index_keys(children)))),
            ),
        },
        None => text_reply(INTERNAL_SERVER_ERROR, "Cannot read directory"@),
    }
}

/// A child stored as the page's lines are: a tuple of name, kind and size.
pub struct Child {
    pub entry: (String, bool, u64),
}

impl View for Child {
    type V = (Seq<char>, bool, u64);

    open spec fn view(&self) -> (Seq<char>, bool, u64) {
        (self.entry.0@, self.entry.1, self.entry.2)
    }
}

/// Answers a request for the directory that was requested as
/// `requested_path` with what was read of its children.
pub fn serve_directory(requested_path: &str, items: Option<Vec<(String, bool, u64)>>) -> (reply:
    Reply)
    ensures
        reply@ == directory_reply(requested_path@, match items {
            Some(v) => Some(item_views(v@)),
            None => None,
        }),
{
    let children = match items {
        Some(children) => children,
        None => {
            return Reply::text(INTERNAL_SERVER_ERROR, "Cannot read directory");
        },
    };
    let ghost all = index_keys(item_views(children@));
    let mut keyed: Vec<Keyed<Child>> = Vec::new();
    assert(line_views(keyed@) == all.take(0));
    for item in it: children.into_iter()
        invariant
            it.seq() == children@,
            all == index_keys(item_views(children@)),
            line_views(keyed@) == all.take(it.index() as int),
    {
        let ghost before = keyed@;
        let folded = lowercase(item.0.as_str());
        let line = Keyed {
            group: if item.1 {
                0u8
            } else {
                1u8
            },
            folded: chars_of(folded.as_str()),
            item: Child { entry: item },
        };
        keyed.push(line);
        assert(line_views(keyed@) == line_views(before).push(line@));
        assert(line_views(keyed@) == all.take(it.index() + 1));
    }
    assert(all.take(children@.len() as int) == all);
    let in_place = arrange(keyed);
    let ghost target = unkeyed(line_views(in_place@));
    let mut shown: Vec<(String, bool, u64)> = Vec::new();
    assert(item_views(shown@) == target.take(0));
    for line in it: in_place.into_iter()
        invariant
            it.seq() == in_place@,
            target == unkeyed(line_views(in_place@)),
            item_views(shown@) == target.take(it.index() as int),
    {
        let ghost before = shown@;
        shown.push(line.item.entry);
        assert(item_views(shown@) == item_views(before).push(line.item@));
        assert(item_views(shown@) == target.take(it.index() + 1));
    }
    assert(target.take(in_place@.len() as int) == target);
    let text = chars_of(requested_path);
    let mut k: usize = 0;
    assert(text@.skip(0) == text@);
    while k < text.len() && text[k] == '/'
        invariant
            k <= text.len(),
            without_leading_slashes(text@) == without_leading_slashes(text@.skip(k as int)),
        decreases text.len() - k,
    {
        assert(text@.skip(k as int).skip(1) == text@.skip(k + 1));
        k += 1;
    }
    let mut path: Vec<char> = Vec::new();
    push_str(&mut path, "/");
    let ghost slash = path@;
    let mut j: usize = k;
    while j < text.len()
        invariant
            k <= j <= text.len(),
            path@ == slash + text@.subrange(k as int, j as int),
        decreases text.len() - j,
    {
        path.push(text[j]);
        j += 1;
    }
    assert(text@.subrange(k as int, text.len() as int) == text@.skip(k as int));
    assert(path@ == display_path(requested_path@));
    let shown_path = string_of(path.as_slice());
    let page = generate_directory_listing(shown_path.as_str(), shown.as_slice());
    let reply = Reply { status: OK, headers: Vec::new(), body: Body::Text(page) };
    let reply = reply.with_header("content-type", "text/html; charset=utf-8".to_owned());
    assert(reply@.headers == seq![("content-type"@, "text/html; charset=utf-8"@)]);
    reply
}

} // verus!
