use file_server::kinds::{
    classify, classify_extension, determine_file_type, file_extension, FileKind,
};

#[test]
fn every_extension_of_the_table() {
    for e in ["jpg", "jpeg", "png", "gif", "bmp", "webp", "svg", "ico"] {
        assert_eq!(determine_file_type(&format!("x.{}", e)), "image");
    }
    for e in ["mp4", "avi", "mkv", "mov", "wmv", "flv", "webm", "m4v", "ogv"] {
        assert_eq!(determine_file_type(&format!("x.{}", e)), "video");
    }
    for e in ["mp3", "wav", "flac", "aac", "ogg", "wma", "m4a"] {
        assert_eq!(determine_file_type(&format!("x.{}", e)), "audio");
    }
    for e in [
        "txt", "md", "rs", "js", "ts", "html", "css", "json", "xml", "log", "py", "java", "c",
        "cpp", "h",
    ] {
        assert_eq!(determine_file_type(&format!("x.{}", e)), "text");
    }
    assert_eq!(determine_file_type("x.pdf"), "pdf");
    for e in ["zip", "rar", "tar", "gz", "7z"] {
        assert_eq!(determine_file_type(&format!("x.{}", e)), "archive");
    }
}

#[test]
fn the_extension_counts_without_regard_to_case() {
    assert_eq!(determine_file_type("PHOTO.JPG"), "image");
    assert_eq!(determine_file_type("Movie.Mp4"), "video");
    assert_eq!(determine_file_type("notes.TXT"), "text");
}

#[test]
fn names_without_a_known_extension_are_unknown() {
    assert_eq!(determine_file_type("README"), "unknown");
    assert_eq!(determine_file_type(""), "unknown");
    assert_eq!(determine_file_type("x.exe"), "unknown");
    assert_eq!(determine_file_type("x."), "unknown");
    assert_eq!(determine_file_type(".txt"), "unknown");
    assert_eq!(determine_file_type(".."), "unknown");
    assert_eq!(determine_file_type("txt"), "unknown");
    assert_eq!(determine_file_type("x.txt.bak"), "unknown");
    assert_eq!(determine_file_type("x.jpgx"), "unknown");
}

#[test]
fn only_the_last_extension_counts() {
    assert_eq!(determine_file_type("archive.tar.gz"), "archive");
    assert_eq!(determine_file_type(".hidden.png"), "image");
    assert_eq!(determine_file_type("a.b/c.mp3"), "audio");
    assert_eq!(determine_file_type("a.mp3/c"), "unknown");
}

#[test]
fn extensions_of_paths() {
    assert_eq!(file_extension("a.txt"), "txt");
    assert_eq!(file_extension("a.tar.gz"), "gz");
    assert_eq!(file_extension("a"), "");
    assert_eq!(file_extension(".bashrc"), "");
    assert_eq!(file_extension(".bashrc.bak"), "bak");
    assert_eq!(file_extension("a."), "");
    assert_eq!(file_extension("dir/a.TXT"), "TXT");
    assert_eq!(file_extension("dir.d/a"), "");
    assert_eq!(file_extension("a.txt/"), "txt");
    assert_eq!(file_extension("a.txt/."), "txt");
    assert_eq!(file_extension("a.txt/.."), "");
    assert_eq!(file_extension(""), "");
    assert_eq!(file_extension("/"), "");
}

#[test]
fn kinds_and_their_names() {
    assert_eq!(classify("a.zip"), FileKind::Archive);
    assert_eq!(classify_extension("pdf"), FileKind::Pdf);
    assert_eq!(classify_extension("PDF"), FileKind::Unknown);
    assert_eq!(classify_extension(""), FileKind::Unknown);
    assert_eq!(FileKind::Directory.name(), "directory");
    assert_eq!(FileKind::Image.name(), "image");
    assert_eq!(FileKind::Video.name(), "video");
    assert_eq!(FileKind::Audio.name(), "audio");
    assert_eq!(FileKind::Text.name(), "text");
    assert_eq!(FileKind::Pdf.name(), "pdf");
    assert_eq!(FileKind::Archive.name(), "archive");
    assert_eq!(FileKind::Unknown.name(), "unknown");
}

#[test]
fn a_name_without_extension_is_unknown() {
    for name in ["README", "", ".bashrc", "dir.d/file", "a.txt/..", "/", "x."] {
        assert_eq!(file_extension(name), "");
        assert_eq!(classify(name), FileKind::Unknown);
        assert_eq!(determine_file_type(name), "unknown");
    }
}
