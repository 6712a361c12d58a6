//! The kind of a file, told from the extension of its name.

use crate::text::{chars_of, is_word, split, split_chars, string_of, views};
use crate::trusted::{lowercase, lowercased};
use vstd::prelude::*;

verus! {

/// What a directory entry is taken to hold.
#[derive(Clone, Copy, Debug, PartialEq, Eq, Structural)]
pub enum FileKind {
    Directory,
    Image,
    Video,
    Audio,
    Text,
    Pdf,
    Archive,
    Unknown,
}

impl FileKind {
    /// The word under which the kind is listed.
    pub open spec fn label(self) -> Seq<char> {
        match self {
            FileKind::Directory => "directory"@,
            FileKind::Image => "image"@,
            FileKind::Video => "video"@,
            FileKind::Audio => "audio"@,
            FileKind::Text => "text"@,
            FileKind::Pdf => "pdf"@,
            FileKind::Archive => "archive"@,
            FileKind::Unknown => "unknown"@,
        }
    }

    pub fn name(&self) -> (s: String)
        ensures
            s@ == self.label(),
    {
        match self {
            FileKind::Directory => "directory".to_owned(),
            FileKind::Image => "image".to_owned(),
            FileKind::Video => "video".to_owned(),
            FileKind::Audio => "audio".to_owned(),
            FileKind::Text => "text".to_owned(),
            FileKind::Pdf => "pdf".to_owned(),
            FileKind::Archive => "archive".to_owned(),
            FileKind::Unknown => "unknown".to_owned(),
        }
    }
}

pub open spec fn is_image_extension(e: Seq<char>) -> bool {
    e == "jpg"@ || e == "jpeg"@ || e == "png"@ || e == "gif"@ || e == "bmp"@ || e == "webp"@ || e
        == "svg"@ || e == "ico"@
}

pub open spec fn is_video_extension(e: Seq<char>) -> bool {
    e == "mp4"@ || e == "avi"@ || e == "mkv"@ || e == "mov"@ || e == "wmv"@ || e == "flv"@ || e
        == "webm"@ || e == "m4v"@ || e == "ogv"@
}

pub open spec fn is_audio_extension(e: Seq<char>) -> bool {
    e == "mp3"@ || e == "wav"@ || e == "flac"@ || e == "aac"@ || e == "ogg"@ || e == "wma"@ || e
        == "m4a"@
}

pub open spec fn is_text_extension(e: Seq<char>) -> bool {
    e == "txt"@ || e == "md"@ || e == "rs"@ || e == "js"@ || e == "ts"@ || e == "html"@ || e
        == "css"@ || e == "json"@ || e == "xml"@ || e == "log"@ || e == "py"@ || e == "java"@ || e
        == "c"@ || e == "cpp"@ || e == "h"@
}

pub open spec fn is_archive_extension(e: Seq<char>) -> bool {
    e == "zip"@ || e == "rar"@ || e == "tar"@ || e == "gz"@ || e == "7z"@
}

/// The kind that a lowercase extension stands for. The empty extension and
/// every extension that the table lacks are unknown.
pub open spec fn kind_of_extension(e: Seq<char>) -> FileKind {
    if is_image_extension(e) {
        FileKind::Image
    } else if is_video_extension(e) {
        FileKind::Video
    } else if is_audio_extension(e) {
        FileKind::Audio
    } else if is_text_extension(e) {
        FileKind::Text
    } else if e == "pdf"@ {
        FileKind::Pdf
    } else if is_archive_extension(e) {
        FileKind::Archive
    } else {
        FileKind::Unknown
    }
}

/// Looks a lowercase extension up in the table of kinds.
pub fn classify_extension(extension: &str) -> (kind: FileKind)
    ensures
        kind == kind_of_extension(extension@),
{
    let chars = chars_of(extension);
    let e = chars.as_slice();
    if is_word(e, "jpg") || is_word(e, "jpeg") || is_word(e, "png") || is_word(e, "gif") || is_word(
        e,
        "bmp",
    ) || is_word(e, "webp") || is_word(e, "svg") || is_word(e, "ico") {
        FileKind::Image
    } else if is_word(e, "mp4") || is_word(e, "avi") || is_word(e, "mkv") || is_word(e, "mov")
        || is_word(e, "wmv") || is_word(e, "flv") || is_word(e, "webm") || is_word(e, "m4v")
        || is_word(e, "ogv") {
        FileKind::Video
    } else if is_word(e, "mp3") || is_word(e, "wav") || is_word(e, "flac") || is_word(e, "aac")
        || is_word(e, "ogg") || is_word(e, "wma") || is_word(e, "m4a") {
        FileKind::Audio
    } else if is_word(e, "txt") || is_word(e, "md") || is_word(e, "rs") || is_word(e, "js")
        || is_word(e, "ts") || is_word(e, "html") || is_word(e, "css") || is_word(e, "json")
        || is_word(e, "xml") || is_word(e, "log") || is_word(e, "py") || is_word(e, "java")
        || is_word(e, "c") || is_word(e, "cpp") || is_word(e, "h") {
        FileKind::Text
    } else if is_word(e, "pdf") {
        FileKind::Pdf
    } else if is_word(e, "zip") || is_word(e, "rar") || is_word(e, "tar") || is_word(e, "gz")
        || is_word(e, "7z") {
        FileKind::Archive
    } else {
        FileKind::Unknown
    }
}

/// The last piece of a path that names something: empty pieces and `.`
/// are passed over, and a path that ends in `..` names nothing.
pub open spec fn last_name(pieces: Seq<Seq<char>>) -> Option<Seq<char>>
    decreases pieces.len(),
{
    if pieces.len() == 0 {
        None
    } else if pieces.last().len() == 0 || pieces.last() == seq!['.'] {
        last_name(pieces.drop_last())
    } else if pieces.last() == seq!['.', '.'] {
        None
    } else {
        Some(pieces.last())
    }
}

/// `d` is the position of the last dot of `name`.
pub open spec fn last_dot(name: Seq<char>, d: int) -> bool {
    &&& 0 <= d < name.len()
    &&& name[d] == '.'
    &&& forall|i: int| d < i < name.len() ==> name[i] != '.'
}

/// The extension of a file name: what follows its last dot, unless that
/// dot is its first character. A name without extension has the empty one.
pub open spec fn extension_of_name(name: Seq<char>) -> Seq<char> {
    if exists|d: int| last_dot(name, d) {
        let d = choose|d: int| last_dot(name, d);
        if d == 0 {
            Seq::empty()
        } else {
            name.skip(d + 1)
        }
    } else {
        Seq::empty()
    }
}

/// The extension of the file that a path names, empty where it has none.
pub open spec fn extension(path: Seq<char>) -> Seq<char> {
    match last_name(split(path, '/')) {
        Some(name) => extension_of_name(name),
        None => Seq::empty(),
    }
}

/// The extension of the file that `path` names.
pub fn file_extension(path: &str) -> (e: String)
    ensures
        e@ == extension(path@),
{
    let text = chars_of(path);
    let pieces = split_chars(text.as_slice(), '/');
    let mut k: usize = pieces.len();
    proof {
        reveal_strlit(".");
        reveal_strlit("..");
        assert("."@ =~= seq!['.']);
        assert(".."@ =~= seq!['.', '.']);
        assert(views(pieces@).take(k as int) == views(pieces@));
    }
    while k > 0
        invariant
            k <= pieces.len(),
            views(pieces@) == split(path@, '/'),
            "."@ == seq!['.'],
            ".."@ == seq!['.', '.'],
            last_name(views(pieces@)) == last_name(views(pieces@).take(k as int)),
        decreases k,
    {
        let piece = pieces[k - 1].as_slice();
        let ghost seen = views(pieces@).take(k as int);
        assert(seen.last() == piece@);
        assert(seen.drop_last() == views(pieces@).take(k - 1));
        if piece.len() == 0 || is_word(piece, ".") {
            k -= 1;
        } else if is_word(piece, "..") {
            return String::new();
        } else {
            let e = name_extension(piece);
            return string_of(e.as_slice());
        }
    }
    String::new()
}

/// The extension of a file name.
fn name_extension(name: &[char]) -> (e: Vec<char>)
    ensures
        e@ == extension_of_name(name@),
{
    let mut d: usize = name.len();
    while d > 0
        invariant
            d <= name.len(),
            forall|i: int| d <= i < name.len() ==> name@[i] != '.',
        decreases d,
    {
        if name[d - 1] == '.' {
            assert(last_dot(name@, d - 1));
            let ghost at = choose|k: int| last_dot(name@, k);
            assert(at == d - 1);
            if d == 1 {
                return Vec::new();
            }
            let mut e: Vec<char> = Vec::new();
            let mut i: usize = d;
            while i < name.len()
                invariant
                    d <= i <= name.len(),
                    e@ == name@.subrange(d as int, i as int),
                decreases name.len() - i,
            {
                e.push(name[i]);
                i += 1;
            }
            assert(name@.subrange(d as int, name.len() as int) == name@.skip(d as int));
            return e;
        }
        d -= 1;
    }
    assert(forall|k: int| !last_dot(name@, k));
    Vec::new()
}

/// The kind of the file that `filename` names: the kind that its extension
/// stands for once the extension is put in lower case.
pub open spec fn kind_of_file(filename: Seq<char>) -> FileKind {
    kind_of_extension(lowercased(extension(filename)))
}

/// The empty extension stands for no kind.
pub proof fn empty_extension_is_unknown()
    ensures
        kind_of_extension(Seq::empty()) == FileKind::Unknown,
{
    let e = Seq::<char>::empty();
    assert(!is_image_extension(e)) by {
        reveal_strlit("jpg");
        assert("jpg"@.len() == 3);
        reveal_strlit("jpeg");
        assert("jpeg"@.len() == 4);
        reveal_strlit("png");
        assert("png"@.len() == 3);
        reveal_strlit("gif");
        assert("gif"@.len() == 3);
        reveal_strlit("bmp");
        assert("bmp"@.len() == 3);
        reveal_strlit("webp");
        assert("webp"@.len() == 4);
        reveal_strlit("svg");
        assert("svg"@.len() == 3);
        reveal_strlit("ico");
        assert("ico"@.len() == 3);
    }
    assert(!is_video_extension(e)) by {
        reveal_strlit("mp4");
        assert("mp4"@.len() == 3);
        reveal_strlit("avi");
        assert("avi"@.len() == 3);
        reveal_strlit("mkv");
        assert("mkv"@.len() == 3);
        reveal_strlit("mov");
        assert("mov"@.len() == 3);
        reveal_strlit("wmv");
        assert("wmv"@.len() == 3);
        reveal_strlit("flv");
        assert("flv"@.len() == 3);
        reveal_strlit("webm");
        assert("webm"@.len() == 4);
        reveal_strlit("m4v");
        assert("m4v"@.len() == 3);
        reveal_strlit("ogv");
        assert("ogv"@.len() == 3);
    }
    assert(!is_audio_extension(e)) by {
        reveal_strlit("mp3");
        assert("mp3"@.len() == 3);
        reveal_strlit("wav");
        assert("wav"@.len() == 3);
        reveal_strlit("flac");
        assert("flac"@.len() == 4);
        reveal_strlit("aac");
        assert("aac"@.len() == 3);
        reveal_strlit("ogg");
        assert("ogg"@.len() == 3);
        reveal_strlit("wma");
        assert("wma"@.len() == 3);
        reveal_strlit("m4a");
        assert("m4a"@.len() == 3);
    }
    assert(!is_text_extension(e)) by {
        reveal_strlit("txt");
        assert("txt"@.len() == 3);
        reveal_strlit("md");
        assert("md"@.len() == 2);
        reveal_strlit("rs");
        assert("rs"@.len() == 2);
        reveal_strlit("js");
        assert("js"@.len() == 2);
        reveal_strlit("ts");
        assert("ts"@.len() == 2);
        reveal_strlit("html");
        assert("html"@.len() == 4);
        reveal_strlit("css");
        assert("css"@.len() == 3);
        reveal_strlit("json");
        assert("json"@.len() == 4);
        reveal_strlit("xml");
        assert("xml"@.len() == 3);
        reveal_strlit("log");
        assert("log"@.len() == 3);
        reveal_strlit("py");
        assert("py"@.len() == 2);
        reveal_strlit("java");
        assert("java"@.len() == 4);
        reveal_strlit("c");
        assert("c"@.len() == 1);
        reveal_strlit("cpp");
        assert("cpp"@.len() == 3);
        reveal_strlit("h");
        assert("h"@.len() == 1);
    }
    assert(!is_archive_extension(e)) by {
        reveal_strlit("zip");
        assert("zip"@.len() == 3);
        reveal_strlit("rar");
        assert("rar"@.len() == 3);
        reveal_strlit("tar");
        assert("tar"@.len() == 3);
        reveal_strlit("gz");
        assert("gz"@.len() == 2);
        reveal_strlit("7z");
        assert("7z"@.len() == 2);
    }
    assert(e != "pdf"@) by {
        reveal_strlit("pdf");
        assert("pdf"@.len() == 3);
    }
}

/// The kind of the file that `filename` names. A name without extension
/// is of unknown kind.
pub fn classify(filename: &str) -> (kind: FileKind)
    ensures
        kind == kind_of_file(filename@),
        extension(filename@).len() == 0 ==> kind == FileKind::Unknown,
{
    let e = file_extension(filename);
    let folded = lowercase(e.as_str());
    proof {
        if e@.len() == 0 {
            assert(folded@ == Seq::<char>::empty());
            empty_extension_is_unknown();
        }
    }
    classify_extension(folded.as_str())
}

/// The word under which the file that `filename` names is listed; for a
/// name without extension it is `unknown`.
pub fn determine_file_type(filename: &str) -> (s: String)
    ensures
        s@ == kind_of_file(filename@).label(),
        extension(filename@).len() == 0 ==> s@ == FileKind::Unknown.label(),
{
    classify(filename).name()
}

} // verus!
