use file_server::paths::{location_of, path_text, Root};

fn root() -> Root {
    Root::new("/data").unwrap()
}

fn text(chars: &Vec<char>) -> String {
    chars.iter().collect()
}

#[test]
fn a_root_is_an_absolute_path() {
    assert!(Root::new("data").is_none());
    assert!(Root::new("").is_none());
    assert_eq!(Root::new("/data").unwrap().path(), "/data");
    assert_eq!(Root::new("/srv//files/./x/../").unwrap().path(), "/srv/files");
    assert_eq!(Root::new("/").unwrap().path(), "/");
}

#[test]
fn paths_under_the_root_resolve() {
    let root = root();
    assert_eq!(root.resolve(""), Some("/data".to_string()));
    assert_eq!(root.resolve("a/b.txt"), Some("/data/a/b.txt".to_string()));
    assert_eq!(root.resolve("/data"), Some("/data".to_string()));
    assert_eq!(root.resolve("/data/"), Some("/data".to_string()));
    assert_eq!(root.resolve("/data/a/b.txt"), Some("/data/a/b.txt".to_string()));
    assert_eq!(root.resolve("a//b/./c/"), Some("/data/a/b/c".to_string()));
    assert_eq!(root.resolve("/data/x/../y"), Some("/data/y".to_string()));
    assert_eq!(root.resolve("a/../b"), Some("/data/b".to_string()));
    assert_eq!(root.resolve("..."), Some("/data/...".to_string()));
}

#[test]
fn traversal_out_of_the_root_is_denied() {
    let root = root();
    assert_eq!(root.resolve(".."), None);
    assert_eq!(root.resolve("../etc/passwd"), None);
    assert_eq!(root.resolve("a/../../etc/passwd"), None);
    assert_eq!(root.resolve("/data/../etc/passwd"), None);
    assert_eq!(root.resolve("/data/a/../../etc"), None);
    assert_eq!(root.resolve("../data2"), None);
}

#[test]
fn traversal_that_comes_back_is_under_the_root() {
    let root = root();
    assert_eq!(root.resolve("../data/x"), Some("/data/x".to_string()));
    assert_eq!(root.resolve("/data/../data/x"), Some("/data/x".to_string()));
    assert_eq!(root.resolve("/../../data/x"), Some("/data/x".to_string()));
}

#[test]
fn an_absolute_path_replaces_the_root() {
    let root = root();
    assert_eq!(root.resolve("/etc/passwd"), None);
    assert_eq!(root.resolve("/"), None);
    assert_eq!(root.resolve("//etc"), None);
}

#[test]
fn the_root_is_matched_by_whole_names() {
    let root = root();
    assert_eq!(root.resolve("/data2"), None);
    assert_eq!(root.resolve("/data2/x"), None);
    assert_eq!(root.resolve("/dat"), None);
    assert_eq!(root.resolve("/DATA/x"), None);
}

#[test]
fn encoded_paths_are_decoded_before_the_check() {
    let root = root();
    assert_eq!(root.locate("a%20b.txt"), Some("/data/a b.txt".to_string()));
    assert_eq!(root.locate("%2Fdata%2Fx"), Some("/data/x".to_string()));
    assert_eq!(root.locate("%2e%2e/secret"), None);
    assert_eq!(root.locate("%2E%2E%2Fsecret"), None);
    assert_eq!(root.locate("a/%2e%2e/%2e%2e/etc"), None);
    assert_eq!(root.locate("%2Fetc%2Fpasswd"), None);
    assert_eq!(root.locate("caf%C3%A9"), Some("/data/caf\u{e9}".to_string()));
    assert_eq!(root.locate("bad%FFbyte"), Some("/data/bad\u{fffd}byte".to_string()));
    assert_eq!(root.locate("100%"), Some("/data/100%".to_string()));
    assert_eq!(root.locate("%zz"), Some("/data/%zz".to_string()));
}

#[test]
fn paths_are_read_from_a_base_directory() {
    let root = root();
    assert_eq!(root.resolve_from("/data/up", "x.txt"), Some("/data/up/x.txt".to_string()));
    assert_eq!(root.resolve_from("/data/up", "../x.txt"), Some("/data/x.txt".to_string()));
    assert_eq!(root.resolve_from("/data/up", "../../x.txt"), None);
    assert_eq!(root.resolve_from("/data/up", "/etc/x.txt"), None);
    assert_eq!(root.resolve_from("/data/up", "/data/y"), Some("/data/y".to_string()));
    assert_eq!(root.resolve_from("/tmp", "x.txt"), None);
}

#[test]
fn a_root_at_the_top_holds_everything() {
    let root = Root::new("/").unwrap();
    assert_eq!(root.resolve("/etc/passwd"), Some("/etc/passwd".to_string()));
    assert_eq!(root.resolve("../.."), Some("/".to_string()));
}

#[test]
fn locations_and_their_paths() {
    let at = location_of("/a//b/./c/../d");
    let names: Vec<String> = at.iter().map(text).collect();
    assert_eq!(names, vec!["a".to_string(), "b".to_string(), "d".to_string()]);
    assert_eq!(path_text(&at), "/a/b/d");
    assert_eq!(path_text(&location_of("/")), "/");
    assert_eq!(path_text(&location_of("/..")), "/");
    let root = root();
    assert!(root.holds(&location_of("/data/x")));
    assert!(root.holds(&location_of("/data")));
    assert!(!root.holds(&location_of("/data2")));
    assert!(root.is_at(&location_of("/data/.")));
    assert!(!root.is_at(&location_of("/data/x")));
}
