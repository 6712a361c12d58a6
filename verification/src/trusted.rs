//! The calls that leave this crate. Verus takes the contract of each item
//! here on trust; everything else in the crate is proved.

use std::fmt::Write as FmtWrite;
use std::io::Cursor;
use std::io::Write as IoWrite;
use vstd::prelude::*;
use zip::ZipWriter;

verus! {

/// `String::push` appends one character to the end of the string.
pub assume_specification[ String::push ](s: &mut String, ch: char)
    ensures
        final(s)@ == old(s)@.push(ch),
;

/// The text that `percent_encoding::percent_decode_str(text).decode_utf8_lossy()`
/// yields for `text`.
pub uninterp spec fn percent_decoded(text: Seq<char>) -> Seq<char>;

/// Calls `percent_encoding::percent_decode_str` and then
/// `PercentDecode::decode_utf8_lossy`: each `%` followed by two hexadecimal
/// digits becomes the byte they spell, and the bytes are read as UTF-8 with
/// U+FFFD in place of what is not. The result depends on `text` alone.
#[verifier::external_body]
pub(crate) fn percent_decode(text: &str) -> (out: String)
    ensures
        out@ == percent_decoded(text@),
{
    percent_encoding::percent_decode_str(text).decode_utf8_lossy().into_owned()
}

/// The text that `str::to_lowercase` yields for `text`.
pub uninterp spec fn lowercased(text: Seq<char>) -> Seq<char>;

/// Calls `str::to_lowercase`, the lowercase form of a string by the rules
/// of Unicode. The result depends on `text` alone, and the lowercase form
/// of the empty string is empty.
#[verifier::external_body]
pub(crate) fn lowercase(text: &str) -> (out: String)
    ensures
        out@ == lowercased(text@),
        text@.len() == 0 ==> out@.len() == 0,
{
    text.to_lowercase()
}

/// The text that chrono writes under the format `pattern` for the date
/// and time of day that lie `secs` seconds after the start of 1970, or
/// `None` where chrono has no such moment or cannot write it under that
/// format.
pub uninterp spec fn timestamp_text(secs: i64, pattern: Seq<char>) -> Option<Seq<char>>;

/// Calls `chrono::DateTime::from_timestamp(secs, 0)` and writes the moment
/// with `DateTime::format`. The result depends on the two arguments alone:
/// chrono counts the seconds without regard to the zone of the machine.
#[verifier::external_body]
pub(crate) fn format_timestamp(secs: i64, pattern: &str) -> (out: Option<String>)
    ensures
        match out {
            Some(text) => timestamp_text(secs, pattern@) == Some(text@),
            None => timestamp_text(secs, pattern@) is None,
        },
{
    let moment = chrono::DateTime::from_timestamp(secs, 0)?;
    let mut text = String::new();
    match write!(text, "{}", moment.format(pattern)) {
        Ok(()) => Some(text),
        Err(_) => None,
    }
}

/// The media type that `mime_guess` gives for the extension of `path`, or
/// `application/octet-stream` where it gives none.
pub uninterp spec fn guessed_content_type(path: Seq<char>) -> Seq<char>;

/// Calls `mime_guess::from_path` and `MimeGuess::first_or_octet_stream`:
/// the first media type that the crate's table holds for the extension of
/// `path`, looked up without regard to case and without touching the disk.
/// The result depends on `path` alone.
#[verifier::external_body]
pub(crate) fn guess_content_type(path: &str) -> (out: String)
    ensures
        out@ == guessed_content_type(path@),
{
    mime_guess::from_path(path).first_or_octet_stream().to_string()
}

/// The character for a hexadecimal digit, in upper case.
pub open spec fn hex_digit(d: int) -> char {
    if d == 0 {
        '0'
    } else if d == 1 {
        '1'
    } else if d == 2 {
        '2'
    } else if d == 3 {
        '3'
    } else if d == 4 {
        '4'
    } else if d == 5 {
        '5'
    } else if d == 6 {
        '6'
    } else if d == 7 {
        '7'
    } else if d == 8 {
        '8'
    } else if d == 9 {
        '9'
    } else if d == 10 {
        'A'
    } else if d == 11 {
        'B'
    } else if d == 12 {
        'C'
    } else if d == 13 {
        'D'
    } else if d == 14 {
        'E'
    } else {
        'F'
    }
}

/// `percent_encoding::percent_encode_byte` gives a percent sign and the
/// two hexadecimal digits of the byte, in upper case.
pub assume_specification[ percent_encoding::percent_encode_byte ](byte: u8) -> (s: &'static str)
    ensures
        s@ == seq!['%', hex_digit(byte as int / 16), hex_digit(byte as int % 16)],
;

/// An archive under construction: a `zip::ZipWriter` over a buffer in
/// memory. Verus does not look inside.
#[verifier::external_body]
pub struct Archive {
    writer: ZipWriter<Cursor<Vec<u8>>>,
}

/// The entries that an archive under construction holds, in the order in
/// which they were added: the name of each and the bytes written to it.
pub uninterp spec fn archive_entries(archive: Archive) -> Seq<
    (Seq<char>, Seq<u8>),
>;

/// The bytes that `ZipWriter::finish` makes of an archive under
/// construction, `None` where it fails.
pub uninterp spec fn archive_bytes(archive: Archive) -> Option<Seq<u8>>;

/// The longest name, in bytes, that an entry can have.
pub const MAX_NAME_BYTES: usize = 65535;

/// How the bytes of a file are stored in an archive.
#[derive(Clone, Copy, Debug, PartialEq, Eq, Structural)]
pub enum Compression {
    /// As they are.
    Stored,
    /// Compressed with the deflate method.
    Deflated,
}

/// Whether `ZipWriter::start_file` succeeds on the archive for a file of
/// the given name, stored with the deflate method where `deflated` holds
/// and as it is else.
pub uninterp spec fn archive_takes_file(archive: Archive, name: Seq<char>, deflated: bool) -> bool;

/// Whether `Write::write_all` succeeds on the archive for the given bytes.
pub uninterp spec fn archive_takes_data(archive: Archive, data: Seq<u8>) -> bool;

/// Whether `ZipWriter::add_directory` succeeds on the archive for a
/// directory of the given name.
pub uninterp spec fn archive_takes_directory(archive: Archive, name: Seq<char>) -> bool;

/// Calls `ZipWriter::new` on an empty buffer: an archive without entries.
#[verifier::external_body]
pub(crate) fn new_archive() -> (archive: Archive)
    ensures
        archive_entries(archive) == Seq::<(Seq<char>, Seq<u8>)>::empty(),
{
    Archive { writer: ZipWriter::new(Cursor::new(Vec::new())) }
}

/// Calls `ZipWriter::start_file` with the method given. Whether it
/// succeeds depends on the archive, the name and the method alone: the
/// archive is in memory. On success the archive has one more entry, the
/// last, under the name given and without bytes so far. On failure it has
/// the entries it had, or in addition the new one, empty. A name of more
/// than 65535 bytes makes the call panic.
#[verifier::external_body]
pub(crate) fn start_archive_file(archive: &mut Archive, name: &str, method: Compression) -> (ok:
    bool)
    requires
        name.len() <= MAX_NAME_BYTES,
    ensures
        ok == archive_takes_file(*old(archive), name@, method == Compression::Deflated),
        ok ==> archive_entries(*final(archive)) == archive_entries(*old(archive)).push(
            (name@, Seq::empty()),
        ),
        !ok ==> archive_entries(*final(archive)) == archive_entries(*old(archive))
            || archive_entries(*final(archive)) == archive_entries(*old(archive)).push(
            (name@, Seq::empty()),
        ),
{
    let method = match method {
        Compression::Stored => zip::CompressionMethod::Stored,
        Compression::Deflated => zip::CompressionMethod::Deflated,
    };
    let options = zip::write::SimpleFileOptions::default().compression_method(method);
    archive.writer.start_file(name, options).is_ok()
}

/// Calls `Write::write_all` on the archive. Whether it succeeds depends on
/// the archive and the bytes alone. On success the bytes are behind those
/// of the last entry; without bytes to write nothing changes. On failure
/// the entries before the last are as they were, and the last is gone or
/// holds a part of the bytes.
#[verifier::external_body]
pub(crate) fn write_archive_data(archive: &mut Archive, data: &[u8]) -> (ok: bool)
    ensures
        ok == archive_takes_data(*old(archive), data@),
        ok && data@.len() == 0 ==> archive_entries(*final(archive)) == archive_entries(
            *old(archive),
        ),
        ok && data@.len() > 0 ==> archive_entries(*old(archive)).len() > 0 && archive_entries(
            *final(archive),
        ) == archive_entries(*old(archive)).drop_last().push(
            (
                archive_entries(*old(archive)).last().0,
                archive_entries(*old(archive)).last().1 + data@,
            ),
        ),
        !ok ==> archive_entries(*old(archive)).drop_last().is_prefix_of(
            archive_entries(*final(archive)),
        ) && archive_entries(*final(archive)).len() <= archive_entries(*old(archive)).len(),
{
    archive.writer.write_all(data).is_ok()
}

/// Calls `ZipWriter::add_directory` with the options that the crate has
/// by default; a directory has no bytes, and the crate stores it as it
/// is. Whether the call succeeds depends on the archive and the name
/// alone. On success the archive has one more entry, the last, without
/// bytes, under the name given, which ends in a slash. On failure it has
/// the entries it had, or in addition the new one. A name of more than
/// 65535 bytes makes the call panic.
#[verifier::external_body]
pub(crate) fn add_archive_directory(archive: &mut Archive, name: &str) -> (ok: bool)
    requires
        name.len() <= MAX_NAME_BYTES,
        name@.len() > 0,
        name@.last() == '/',
    ensures
        ok == archive_takes_directory(*old(archive), name@),
        ok ==> archive_entries(*final(archive)) == archive_entries(*old(archive)).push(
            (name@, Seq::empty()),
        ),
        !ok ==> archive_entries(*final(archive)) == archive_entries(*old(archive))
            || archive_entries(*final(archive)) == archive_entries(*old(archive)).push(
            (name@, Seq::empty()),
        ),
{
    archive.writer.add_directory(name, zip::write::SimpleFileOptions::default()).is_ok()
}

/// Calls `ZipWriter::finish` and takes the buffer out of the cursor: the
/// bytes of the finished archive, `None` where the archive could not be
/// finished.
#[verifier::external_body]
pub(crate) fn finish_archive(archive: Archive) -> (bytes: Option<Vec<u8>>)
    ensures
        match bytes {
            Some(b) => archive_bytes(archive) == Some(b@),
            None => archive_bytes(archive) is None,
        },
{
    match archive.writer.finish() {
        Ok(cursor) => Some(cursor.into_inner()),
        Err(_) => None,
    }
}

/// The text that `str::trim` leaves of `text`.
pub uninterp spec fn trimmed(text: Seq<char>) -> Seq<char>;

/// Calls `str::trim`: the text without the white space, by the rules of
/// Unicode, that it starts and ends with. The result depends on `text`
/// alone; it is a part of `text`, so it has no more characters.
#[verifier::external_body]
pub(crate) fn trim(text: &str) -> (out: &str)
    ensures
        out@ == trimmed(text@),
        out@.len() <= text@.len(),
{
    text.trim()
}

} // verus!
