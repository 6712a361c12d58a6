use file_server::encode::push_encoded;
use file_server::paths::Root;
use file_server::reply::{Body, Reply};
use file_server::serve::{
    generate_directory_listing, handle_serve, serve_directory, serve_file, serve_file_range,
    serve_path, serve_target, serve_whole_file, FilePlan, Found, RangeRead, ServeStep,
};

fn header(reply: &Reply, name: &str) -> Option<String> {
    reply.headers.iter().find(|h| h.name == name).map(|h| h.value.clone())
}

fn header_names(reply: &Reply) -> Vec<String> {
    reply.headers.iter().map(|h| h.name.clone()).collect()
}

fn bytes(reply: &Reply) -> Vec<u8> {
    match &reply.body {
        Body::Bytes(b) => b.clone(),
        _ => panic!("the body is not bytes"),
    }
}

fn text(reply: &Reply) -> String {
    match &reply.body {
        Body::Text(t) => t.clone(),
        _ => panic!("the body is not text"),
    }
}

fn encoded(name: &str) -> String {
    let mut out: Vec<char> = Vec::new();
    push_encoded(&mut out, name);
    out.iter().collect()
}

#[test]
fn a_part_of_a_ten_byte_file() {
    let content: Vec<u8> = (0u8..10).collect();
    let plan = serve_file("/data/ten.bin", content.len() as u64, Some("bytes=2-5"));
    let (content_type, start, end, file_size) = match plan {
        FilePlan::Part { content_type, start, end, file_size } => {
            (content_type, start, end, file_size)
        }
        FilePlan::Whole { .. } => panic!("the range was not honoured"),
    };
    assert_eq!((start, end, file_size), (2, 5, 10));
    let read = content[start as usize..=end as usize].to_vec();
    let reply = serve_file_range(&content_type, (start, end), file_size, RangeRead::Done(read));
    assert_eq!(reply.status, 206);
    assert_eq!(bytes(&reply), vec![2, 3, 4, 5]);
    assert_eq!(bytes(&reply).len(), 4);
    assert_eq!(header(&reply, "content-range").unwrap(), "bytes 2-5/10");
    assert_eq!(header(&reply, "content-length").unwrap(), "4");
    assert_eq!(header(&reply, "accept-ranges").unwrap(), "bytes");
    assert_eq!(header(&reply, "content-type").unwrap(), "application/octet-stream");
    assert_eq!(
        header_names(&reply),
        vec!["content-type", "accept-ranges", "content-range", "content-length"]
    );
}

#[test]
fn an_unsupported_range_serves_the_whole_file() {
    let content = b"0123456789".to_vec();
    for range in ["bytes=10-", "bytes=-0", "bytes=0-1,2-3", "lines=1-2", "bytes=5-2"] {
        let plan = serve_file("/data/notes.txt", 10, Some(range));
        let (content_type, length) = match plan {
            FilePlan::Whole { content_type, length } => (content_type, length),
            FilePlan::Part { .. } => panic!("the range was honoured"),
        };
        let reply = serve_whole_file(&content_type, length, Some(content.clone()));
        assert_eq!(reply.status, 200);
        assert_eq!(bytes(&reply), content);
        assert_eq!(header(&reply, "content-length").unwrap(), "10");
        assert_eq!(header(&reply, "content-type").unwrap(), "text/plain");
        assert_eq!(header(&reply, "accept-ranges").unwrap(), "bytes");
        assert!(header(&reply, "content-range").is_none());
    }
}

#[test]
fn a_request_without_range_serves_the_whole_file() {
    match serve_file("/data/page.html", 1234, None) {
        FilePlan::Whole { content_type, length } => {
            assert_eq!(content_type, "text/html");
            assert_eq!(length, 1234);
        }
        FilePlan::Part { .. } => panic!("there was no range"),
    }
}

#[test]
fn content_types_are_guessed_from_the_extension() {
    let guess = |path: &str| match serve_file(path, 1, None) {
        FilePlan::Whole { content_type, .. } => content_type,
        FilePlan::Part { .. } => panic!("there was no range"),
    };
    assert_eq!(guess("/data/a.png"), "image/png");
    assert_eq!(guess("/data/a.PNG"), "image/png");
    assert_eq!(guess("/data/a.json"), "application/json");
    assert_eq!(guess("/data/a"), "application/octet-stream");
    assert_eq!(guess("/data/a.nothing-known"), "application/octet-stream");
    assert_ne!(guess("/data/a.png"), "/data/a.png");
}

#[test]
fn a_whole_file_that_cannot_be_read_is_not_found() {
    let reply = serve_whole_file("text/plain", 10, None);
    assert_eq!(reply.status, 404);
    assert_eq!(text(&reply), "File not found");
    assert!(reply.headers.is_empty());
}

#[test]
fn failures_while_reading_a_part() {
    let reply = serve_file_range("text/plain", (0, 3), 10, RangeRead::OpenFailed);
    assert_eq!((reply.status, text(&reply)), (404, "File not found".to_string()));
    let reply = serve_file_range("text/plain", (0, 3), 10, RangeRead::SeekFailed);
    assert_eq!((reply.status, text(&reply)), (500, "Seek failed".to_string()));
    let reply = serve_file_range("text/plain", (0, 3), 10, RangeRead::ReadFailed);
    assert_eq!((reply.status, text(&reply)), (500, "Read failed".to_string()));
    let reply = serve_file_range("text/plain", (0, 3), 10, RangeRead::Done(vec![1, 2, 3]));
    assert_eq!((reply.status, text(&reply)), (500, "Read failed".to_string()));
    let reply = serve_file_range("text/plain", (0, 3), 10, RangeRead::Done(vec![1, 2, 3, 4, 5]));
    assert_eq!((reply.status, text(&reply)), (500, "Read failed".to_string()));
}

#[test]
fn the_largest_part() {
    let reply = serve_file_range(
        "application/octet-stream",
        (u64::MAX - 1, u64::MAX - 1),
        u64::MAX,
        RangeRead::Done(vec![7]),
    );
    assert_eq!(reply.status, 206);
    assert_eq!(
        header(&reply, "content-range").unwrap(),
        "bytes 18446744073709551614-18446744073709551614/18446744073709551615"
    );
    assert_eq!(header(&reply, "content-length").unwrap(), "1");
}

#[test]
fn the_path_to_serve() {
    let root = Root::new("/data").unwrap();
    assert_eq!(serve_path(&root, ""), Some("/data".to_string()));
    assert_eq!(serve_path(&root, "/"), Some("/data".to_string()));
    assert_eq!(serve_path(&root, "a/b"), Some("/data/a/b".to_string()));
    assert_eq!(serve_path(&root, "//"), None);
    assert_eq!(serve_path(&root, "/etc/passwd"), None);
    assert_eq!(serve_path(&root, "../x"), None);
    match serve_target(&root, "docs/a%20b.txt") {
        Ok(path) => assert_eq!(path, "/data/docs/a b.txt"),
        Err(_) => panic!("the path lies under the root"),
    }
    match serve_target(&root, "%2F") {
        Ok(path) => assert_eq!(path, "/data"),
        Err(_) => panic!("a lone slash is the root"),
    }
}

#[test]
fn a_tail_that_leaves_the_root_is_denied() {
    let root = Root::new("/data").unwrap();
    for tail in ["../etc/passwd", "%2e%2e/%2e%2e/etc/passwd", "a/../../b", "%2Fetc%2Fpasswd", "/etc"] {
        match serve_target(&root, tail) {
            Ok(_) => panic!("the path leaves the root"),
            Err(reply) => {
                assert_eq!(reply.status, 403);
                assert_eq!(text(&reply), "Access denied");
                assert!(reply.headers.is_empty());
            }
        }
    }
}

#[test]
fn what_lies_at_the_path_decides() {
    match handle_serve("/data/x", Found::Missing, Some("bytes=0-1")) {
        ServeStep::Answer(reply) => {
            assert_eq!(reply.status, 404);
            assert_eq!(text(&reply), "Not found");
        }
        _ => panic!("nothing lies there"),
    }
    assert!(matches!(handle_serve("/data/x", Found::Directory, None), ServeStep::ReadDirectory));
    match handle_serve("/data/x.txt", Found::File { size: 100 }, Some("bytes=10-19")) {
        ServeStep::ReadFile(FilePlan::Part { content_type, start, end, file_size }) => {
            assert_eq!(content_type, "text/plain");
            assert_eq!((start, end, file_size), (10, 19, 100));
        }
        _ => panic!("a part of the file was asked for"),
    }
    match handle_serve("/data/x.txt", Found::File { size: 100 }, None) {
        ServeStep::ReadFile(FilePlan::Whole { length, .. }) => assert_eq!(length, 100),
        _ => panic!("the whole file was asked for"),
    }
}

#[test]
fn the_page_of_a_directory() {
    let items = vec![("a b.txt".to_string(), false, 3u64), ("sub".to_string(), true, 0u64)];
    let page = generate_directory_listing("/", &items);
    let expected = "<!DOCTYPE HTML PUBLIC \"-//W3C//DTD HTML 3.2 Final//EN\">\n<html>\n <head>\n  <title>Index of /</title>\n </head>\n <body>\n<h1>Index of /</h1>\n<ul><li><a href=\"a%20b.txt\"> a b.txt</a></li>\n<li><a href=\"sub/\"> sub/</a></li>\n</ul>\n</body></html>";
    assert_eq!(page, expected);
}

#[test]
fn the_page_of_an_empty_directory() {
    let page = generate_directory_listing("", &[]);
    let expected = "<!DOCTYPE HTML PUBLIC \"-//W3C//DTD HTML 3.2 Final//EN\">\n<html>\n <head>\n  <title>Index of /</title>\n </head>\n <body>\n<h1>Index of /</h1>\n<ul></ul>\n</body></html>";
    assert_eq!(page, expected);
    let page = generate_directory_listing("/docs/old", &[]);
    assert!(page.contains("<title>Index of /docs/old</title>"));
    assert!(page.contains("<h1>Index of /docs/old</h1>"));
}

#[test]
fn names_are_encoded_for_links() {
    assert_eq!(encoded("plain-name_1.txt"), "plain-name_1.txt");
    assert_eq!(encoded("a b"), "a%20b");
    assert_eq!(encoded("\"<>`#?{}"), "%22%3C%3E%60%23%3F%7B%7D");
    assert_eq!(encoded("tab\there"), "tab%09here");
    assert_eq!(encoded("\u{7f}"), "%7F");
    assert_eq!(encoded("caf\u{e9}"), "caf%C3%A9");
    assert_eq!(encoded("\u{1f496}"), "%F0%9F%92%96");
    assert_eq!(encoded("100%&'()*+,;=:@[]|^~!$/\\"), "100%&'()*+,;=:@[]|^~!$/\\");
    assert_eq!(encoded(""), "");
}

#[test]
fn the_answer_for_a_directory() {
    let items = vec![
        ("b.txt".to_string(), false, 1u64),
        ("Zoo".to_string(), true, 0u64),
        ("A.txt".to_string(), false, 2u64),
        ("apps".to_string(), true, 0u64),
        ("..".to_string(), false, 0u64),
    ];
    let reply = serve_directory("docs", Some(items));
    assert_eq!(reply.status, 200);
    assert_eq!(header(&reply, "content-type").unwrap(), "text/html; charset=utf-8");
    assert_eq!(reply.headers.len(), 1);
    let page = text(&reply);
    assert!(page.contains("<title>Index of /docs</title>"));
    let order: Vec<usize> = ["> apps/<", "> Zoo/<", "> ..<", "> A.txt<", "> b.txt<"]
        .iter()
        .map(|needle| page.find(needle).unwrap())
        .collect();
    let mut sorted = order.clone();
    sorted.sort();
    assert_eq!(order, sorted);
}

#[test]
fn the_shown_path_of_a_directory() {
    let shown = |requested: &str| {
        let page = text(&serve_directory(requested, Some(Vec::new())));
        let start = page.find("<h1>Index of ").unwrap() + "<h1>Index of ".len();
        let end = page.find("</h1>").unwrap();
        page[start..end].to_string()
    };
    assert_eq!(shown(""), "/");
    assert_eq!(shown("/"), "/");
    assert_eq!(shown("///"), "/");
    assert_eq!(shown("docs"), "/docs");
    assert_eq!(shown("//docs/a"), "/docs/a");
    assert_eq!(shown("docs/"), "/docs/");
}

#[test]
fn a_directory_that_cannot_be_read() {
    let reply = serve_directory("docs", None);
    assert_eq!(reply.status, 500);
    assert_eq!(text(&reply), "Cannot read directory");
}
