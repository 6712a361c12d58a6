//! The requests that are one access to the filesystem behind the check of
//! the path: fetch, download, list, delete, create a directory, save.
//!
//! Each comes in two parts. The first turns the query into the path to
//! use, or into the answer 403 where the path leads out of the root, so
//! that nothing is touched for such a request. The second turns the
//! outcome of the access into the answer.

use crate::listing::{entry_views, info_views, listing, load_directory, DirEntry, FileInfoView};
use crate::paths::{lies_under, location_from, path_of, resolved, Root};
use crate::reply::{
    json_reply, text_reply, Body, BodyView, Reply, ReplyView, FORBIDDEN, INTERNAL_SERVER_ERROR,
    NOT_FOUND, OK,
};
use crate::trusted::{guess_content_type, guessed_content_type, percent_decoded};
use crate::types::{FileQuery, ListQuery};
use vstd::prelude::*;

verus! {

/// The path to use for a request, or the answer that denies it.
pub open spec fn target(root: Seq<Seq<char>>, logical: Seq<char>, denial: ReplyView) -> Result<
    Seq<char>,
    ReplyView,
> {
    match resolved(root, percent_decoded(logical)) {
        Some(path) => Ok(path),
        None => Err(denial),
    }
}

pub open spec fn target_view(r: Result<String, Reply>) -> Result<Seq<char>, ReplyView> {
    match r {
        Ok(path) => Ok(path@),
        Err(reply) => Err(reply@),
    }
}

/// Resolves the path of a request whose answers are plain text.
fn text_target(root: &Root, logical: &str) -> (r: Result<String, Reply>)
    ensures
        target_view(r) == target(root@, logical@, text_reply(FORBIDDEN, "Access denied"@)),
        r matches Ok(path) ==> lies_under(root@, path@),
{
    match root.locate(logical) {
        Some(path) => Ok(path),
        None => Err(Reply::text(FORBIDDEN, "Access denied")),
    }
}

/// Resolves the path of a request whose answers are JSON.
fn json_target(root: &Root, logical: &str) -> (r: Result<String, Reply>)
    ensures
        target_view(r) == target(root@, logical@, json_reply(FORBIDDEN, "Access denied"@)),
        r matches Ok(path) ==> lies_under(root@, path@),
{
    match root.locate(logical) {
        Some(path) => Ok(path),
        None => Err(Reply::json(FORBIDDEN, "Access denied")),
    }
}

pub open spec fn bytes_of(read: Option<Vec<u8>>) -> Option<Seq<u8>> {
    match read {
        Some(bytes) => Some(bytes@),
        None => None,
    }
}

/// The file to fetch.
pub fn handle_file(root: &Root, query: &FileQuery) -> (r: Result<String, Reply>)
    ensures
        target_view(r) == target(root@, query.path@, text_reply(FORBIDDEN, "Access denied"@)),
        r matches Ok(path) ==> lies_under(root@, path@),
{
    text_target(root, query.path.as_str())
}

/// The answer to a fetch: the bytes under the media type of the path, or
/// 404 where the file could not be read.
pub open spec fn file_answer(path: Seq<char>, read: Option<Seq<u8>>) -> ReplyView {
    match read {
        Some(bytes) => ReplyView {
            status: OK,
            headers: seq![("content-type"@, guessed_content_type(path))],
            body: BodyView::Bytes(bytes),
        },
        None => text_reply(NOT_FOUND, "File not found"@),
    }
}

pub fn file_reply(path: &str, read: Option<Vec<u8>>) -> (reply: Reply)
    ensures
        reply@ == file_answer(path@, bytes_of(read)),
{
    match read {
        Some(bytes) => {
            let reply = Reply { status: OK, headers: Vec::new(), body: Body::Bytes(bytes) };
            let reply = reply.with_header("content-type", guess_content_type(path));
            assert(reply@.headers == seq![("content-type"@, guessed_content_type(path@))]);
            reply
        },
        None => Reply::text(NOT_FOUND, "File not found"),
    }
}

/// The file to download.
pub fn handle_download(root: &Root, query: &FileQuery) -> (r: Result<String, Reply>)
    ensures
        target_view(r) == target(root@, query.path@, text_reply(FORBIDDEN, "Access denied"@)),
        r matches Ok(path) ==> lies_under(root@, path@),
{
    text_target(root, query.path.as_str())
}

/// The answer to a download: the bytes as an attachment, or 404 where the
/// file could not be read.
pub open spec fn download_answer(read: Option<Seq<u8>>) -> ReplyView {
    match read {
        Some(bytes) => ReplyView {
            status: OK,
            headers: seq![("content-disposition"@, "attachment"@)],
            body: BodyView::Bytes(bytes),
        },
        None => text_reply(NOT_FOUND, "File not found"@),
    }
}

pub fn download_reply(read: Option<Vec<u8>>) -> (reply: Reply)
    ensures
        reply@ == download_answer(bytes_of(read)),
{
    match read {
        Some(bytes) => {
            let reply = Reply { status: OK, headers: Vec::new(), body: Body::Bytes(bytes) };
            let reply = reply.with_header("content-disposition", "attachment".to_owned());
            assert(reply@.headers == seq![("content-disposition"@, "attachment"@)]);
            reply
        },
        None => Reply::text(NOT_FOUND, "File not found"),
    }
}

/// The directory that a listing is asked for: the root where the query
/// names none.
pub open spec fn list_target(root: Seq<Seq<char>>, path: Option<Seq<char>>) -> Result<
    Seq<char>,
    ReplyView,
> {
    match path {
        Some(logical) => target(root, logical, json_reply(FORBIDDEN, "Access denied"@)),
        None => Ok(path_of(root)),
    }
}

/// The directory to list.
pub fn list_request(root: &Root, query: &ListQuery) -> (r: Result<String, Reply>)
    ensures
        target_view(r) == list_target(root@, match query.path {
            Some(p) => Some(p@),
            None => None,
        }),
        r matches Ok(path) ==> lies_under(root@, path@),
{
    match &query.path {
        Some(logical) => json_target(root, logical.as_str()),
        None => Ok(root.path()),
    }
}

/// The answer to a request for a listing: the listing with status 200, or
/// the empty listing with status 404 where the directory could not be
/// read.
pub open spec fn list_answer(root: Seq<Seq<char>>, dir: Seq<char>, read: Option<Seq<DirEntry>>)
    -> ReplyView {
    match read {
        Some(entries) => ReplyView {
            status: OK,
            headers: Seq::empty(),
            body: BodyView::Listing(listing(root, dir, entry_views(entries))),
        },
        None => ReplyView {
            status: NOT_FOUND,
            headers: Seq::empty(),
            body: BodyView::Listing(Seq::empty()),
        },
    }
}

pub fn handle_list(root: &Root, dir: &str, read: Option<Vec<DirEntry>>) -> (reply: Reply)
    ensures
        reply@ == list_answer(root@, dir@, match read {
            Some(entries) => Some(entries@),
            None => None,
        }),
{
    let (status, files) = match read {
        Some(entries) => (OK, load_directory(root, dir, &entries)),
        None => (NOT_FOUND, Vec::new()),
    };
    let reply = Reply { status, headers: Vec::new(), body: Body::Listing(files) };
    assert(reply@.headers == Seq::<(Seq<char>, Seq<char>)>::empty());
    assert(read is None ==> info_views(files@) == Seq::<FileInfoView>::empty());
    reply
}

/// The file or directory to delete.
pub fn handle_delete(root: &Root, query: &FileQuery) -> (r: Result<String, Reply>)
    ensures
        target_view(r) == target(root@, query.path@, json_reply(FORBIDDEN, "Access denied"@)),
        r matches Ok(path) ==> lies_under(root@, path@),
{
    json_target(root, query.path.as_str())
}

/// The answer to a delete: 200 where the path was removed, 500 where it
/// was not, also where nothing was there to remove.
pub fn delete_reply(removed: bool) -> (reply: Reply)
    ensures
        reply@ == if removed {
            json_reply(OK, "Deleted successfully"@)
        } else {
            json_reply(INTERNAL_SERVER_ERROR, "Failed to delete"@)
        },
{
    if removed {
        Reply::json(OK, "Deleted successfully")
    } else {
        Reply::json(INTERNAL_SERVER_ERROR, "Failed to delete")
    }
}

/// The directory to create.
pub fn handle_mkdir(root: &Root, query: &FileQuery) -> (r: Result<String, Reply>)
    ensures
        target_view(r) == target(root@, query.path@, json_reply(FORBIDDEN, "Access denied"@)),
        r matches Ok(path) ==> lies_under(root@, path@),
{
    json_target(root, query.path.as_str())
}

/// The answer to the creation of a directory.
pub fn mkdir_reply(created: bool) -> (reply: Reply)
    ensures
        reply@ == if created {
            json_reply(OK, "Folder created successfully"@)
        } else {
            json_reply(INTERNAL_SERVER_ERROR, "Failed to create folder"@)
        },
{
    if created {
        Reply::json(OK, "Folder created successfully")
    } else {
        Reply::json(INTERNAL_SERVER_ERROR, "Failed to create folder")
    }
}

/// The file to write.
pub fn handle_save(root: &Root, query: &FileQuery) -> (r: Result<String, Reply>)
    ensures
        target_view(r) == target(root@, query.path@, text_reply(FORBIDDEN, "Access denied"@)),
        r matches Ok(path) ==> lies_under(root@, path@),
{
    text_target(root, query.path.as_str())
}

/// The answer to a save.
pub fn save_reply(written: bool) -> (reply: Reply)
    ensures
        reply@ == if written {
            text_reply(OK, "File saved successfully"@)
        } else {
            text_reply(INTERNAL_SERVER_ERROR, "Failed to save file"@)
        },
{
    if written {
        Reply::text(OK, "File saved successfully")
    } else {
        Reply::text(INTERNAL_SERVER_ERROR, "Failed to save file")
    }
}

/// A request whose path leads out of the root is answered with 403, and
/// with nothing else: no path is handed out for it.
pub proof fn outside_root_is_denied(root: Seq<Seq<char>>, logical: Seq<char>, denial: ReplyView)
    requires
        denial.status == FORBIDDEN,
        !root.is_prefix_of(location_from(root, percent_decoded(logical))),
    ensures
        target(root, logical, denial) == Err::<Seq<char>, ReplyView>(denial),
        target(root, logical, denial) matches Err(reply) && reply.status == FORBIDDEN,
{
}

} // verus!
