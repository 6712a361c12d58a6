use file_server::download_multiple::{
    handle_download_multiple, ArchiveAction, ArchiveEvent, ArchiveJob, DownloadMultipleQuery, Stat,
};
use file_server::paths::Root;
use file_server::reply::{Body, Reply};
use std::io::Read;

fn root() -> Root {
    Root::new("/data").unwrap()
}

fn inputs(paths: &str) -> Result<Vec<String>, Reply> {
    handle_download_multiple(&root(), &DownloadMultipleQuery { paths: paths.to_string() })
}

fn look(action: ArchiveAction, path: &str) {
    assert!(matches!(&action, ArchiveAction::Look(p) if p == path));
}

fn read_file(action: ArchiveAction, path: &str) {
    assert!(matches!(&action, ArchiveAction::ReadFile(p) if p == path));
}

fn read_directory(action: ArchiveAction, path: &str) {
    assert!(matches!(&action, ArchiveAction::ReadDirectory(p) if p == path));
}

fn children(names: &[&str]) -> ArchiveEvent {
    ArchiveEvent::DirectoryRead(Some(names.iter().map(|n| n.to_string()).collect()))
}

fn file(bytes: &[u8]) -> ArchiveEvent {
    ArchiveEvent::FileRead(Some(bytes.to_vec()))
}

/// The entries of a finished archive: name, whether it is a directory, bytes.
fn unpack(reply: Reply) -> Vec<(String, bool, Vec<u8>)> {
    assert_eq!(reply.status, 200);
    let bytes = match reply.body {
        Body::Bytes(b) => b,
        _ => panic!("the body is not bytes"),
    };
    let mut archive = zip::ZipArchive::new(std::io::Cursor::new(bytes)).unwrap();
    let mut out = Vec::new();
    for i in 0..archive.len() {
        let mut entry = archive.by_index(i).unwrap();
        let mut data = Vec::new();
        entry.read_to_end(&mut data).unwrap();
        out.push((entry.name().to_string(), entry.is_dir(), data));
    }
    out
}

#[test]
fn a_file_and_a_directory_with_a_file() {
    let mut job = ArchiveJob::new(vec!["/data/pack".to_string()]);
    look(job.step(ArchiveEvent::Start), "/data/pack");
    read_directory(job.step(ArchiveEvent::Found(Stat::Directory)), "/data/pack");
    look(job.step(children(&["a.txt", "sub"])), "/data/pack/a.txt");
    read_file(job.step(ArchiveEvent::Found(Stat::File)), "/data/pack/a.txt");
    look(job.step(file(b"alpha\n")), "/data/pack/sub");
    read_directory(job.step(ArchiveEvent::Found(Stat::Directory)), "/data/pack/sub");
    look(job.step(children(&["b.txt"])), "/data/pack/sub/b.txt");
    read_file(job.step(ArchiveEvent::Found(Stat::File)), "/data/pack/sub/b.txt");
    assert!(matches!(job.step(file(&[0, 159, 146, 150, 255])), ArchiveAction::Finish));
    assert_eq!(job.written(), &vec!["a.txt", "sub/", "sub/b.txt"]);
    assert!(job.skipped().is_empty());
    let entries = unpack(job.finish());
    let files: Vec<&(String, bool, Vec<u8>)> = entries.iter().filter(|e| !e.1).collect();
    assert_eq!(files.len(), 2);
    assert_eq!(files[0].0, "a.txt");
    assert_eq!(files[0].2, b"alpha\n");
    assert_eq!(files[1].0, "sub/b.txt");
    assert_eq!(files[1].2, vec![0, 159, 146, 150, 255]);
    let directories: Vec<&(String, bool, Vec<u8>)> = entries.iter().filter(|e| e.1).collect();
    assert_eq!(directories.len(), 1);
    assert_eq!(directories[0].0, "sub/");
    assert!(directories[0].2.is_empty());
}

#[test]
fn inputs_are_named_by_their_last_name() {
    let mut job = ArchiveJob::new(vec!["/data/docs/a.txt".to_string(), "/data/sub".to_string()]);
    look(job.step(ArchiveEvent::Start), "/data/docs/a.txt");
    read_file(job.step(ArchiveEvent::Found(Stat::File)), "/data/docs/a.txt");
    look(job.step(file(b"one")), "/data/sub");
    read_directory(job.step(ArchiveEvent::Found(Stat::Directory)), "/data/sub");
    look(job.step(children(&["b.txt", "deep"])), "/data/sub/b.txt");
    read_file(job.step(ArchiveEvent::Found(Stat::File)), "/data/sub/b.txt");
    look(job.step(file(b"two")), "/data/sub/deep");
    read_directory(job.step(ArchiveEvent::Found(Stat::Directory)), "/data/sub/deep");
    assert!(matches!(job.step(children(&[])), ArchiveAction::Finish));
    assert_eq!(job.written(), &vec!["a.txt", "b.txt", "deep/"]);
    let entries = unpack(job.finish());
    assert_eq!(
        entries,
        vec![
            ("a.txt".to_string(), false, b"one".to_vec()),
            ("b.txt".to_string(), false, b"two".to_vec()),
            ("deep/".to_string(), true, Vec::new()),
        ]
    );
}

#[test]
fn directories_are_walked_depth_first() {
    let mut job = ArchiveJob::new(vec!["/data/t".to_string()]);
    look(job.step(ArchiveEvent::Start), "/data/t");
    job.step(ArchiveEvent::Found(Stat::Directory));
    look(job.step(children(&["a", "z.txt"])), "/data/t/a");
    job.step(ArchiveEvent::Found(Stat::Directory));
    look(job.step(children(&["b", "y.txt"])), "/data/t/a/b");
    job.step(ArchiveEvent::Found(Stat::Directory));
    look(job.step(children(&["x.txt"])), "/data/t/a/b/x.txt");
    job.step(ArchiveEvent::Found(Stat::File));
    look(job.step(file(b"x")), "/data/t/a/y.txt");
    job.step(ArchiveEvent::Found(Stat::File));
    look(job.step(file(b"y")), "/data/t/z.txt");
    job.step(ArchiveEvent::Found(Stat::File));
    assert!(matches!(job.step(file(b"z")), ArchiveAction::Finish));
    assert_eq!(job.written(), &vec!["a/", "a/b/", "a/b/x.txt", "a/y.txt", "z.txt"]);
    let names: Vec<String> = unpack(job.finish()).into_iter().map(|e| e.0).collect();
    assert_eq!(names, vec!["a/", "a/b/", "a/b/x.txt", "a/y.txt", "z.txt"]);
}

#[test]
fn what_cannot_be_read_is_passed_over() {
    let mut job = ArchiveJob::new(vec![
        "/data/gone".to_string(),
        "/data/locked.txt".to_string(),
        "/data/dir".to_string(),
        "/data/ok.txt".to_string(),
    ]);
    look(job.step(ArchiveEvent::Start), "/data/gone");
    look(job.step(ArchiveEvent::Found(Stat::Unreadable)), "/data/locked.txt");
    read_file(job.step(ArchiveEvent::Found(Stat::File)), "/data/locked.txt");
    look(job.step(ArchiveEvent::FileRead(None)), "/data/dir");
    read_directory(job.step(ArchiveEvent::Found(Stat::Directory)), "/data/dir");
    look(job.step(children(&["pipe", "closed", "in.txt"])), "/data/dir/pipe");
    look(job.step(ArchiveEvent::Found(Stat::Other)), "/data/dir/closed");
    read_directory(job.step(ArchiveEvent::Found(Stat::Directory)), "/data/dir/closed");
    look(job.step(ArchiveEvent::DirectoryRead(None)), "/data/dir/in.txt");
    read_file(job.step(ArchiveEvent::Found(Stat::File)), "/data/dir/in.txt");
    look(job.step(file(b"in")), "/data/ok.txt");
    read_file(job.step(ArchiveEvent::Found(Stat::File)), "/data/ok.txt");
    assert!(matches!(job.step(file(b"ok")), ArchiveAction::Finish));
    assert_eq!(
        job.skipped(),
        &vec!["/data/gone", "/data/locked.txt", "/data/dir/pipe", "/data/dir/closed"]
    );
    assert_eq!(job.written(), &vec!["closed/", "in.txt", "ok.txt"]);
    let entries = unpack(job.finish());
    assert_eq!(
        entries,
        vec![
            ("closed/".to_string(), true, Vec::new()),
            ("in.txt".to_string(), false, b"in".to_vec()),
            ("ok.txt".to_string(), false, b"ok".to_vec()),
        ]
    );
}

#[test]
fn a_job_that_passes_over_everything_makes_an_empty_archive() {
    let mut job = ArchiveJob::new(vec!["/data/gone".to_string()]);
    look(job.step(ArchiveEvent::Start), "/data/gone");
    assert!(matches!(job.step(ArchiveEvent::Found(Stat::Unreadable)), ArchiveAction::Finish));
    let reply = job.finish();
    assert_eq!(reply.status, 200);
    assert_eq!(reply.headers.len(), 2);
    assert_eq!(reply.headers[0].name, "content-type");
    assert_eq!(reply.headers[0].value, "application/zip");
    assert_eq!(reply.headers[1].name, "content-disposition");
    assert_eq!(reply.headers[1].value, "attachment; filename=\"download.zip\"");
    assert!(unpack(reply).is_empty());
    let mut job = ArchiveJob::new(Vec::new());
    assert!(matches!(job.step(ArchiveEvent::Start), ArchiveAction::Finish));
    assert!(unpack(job.finish()).is_empty());
}

#[test]
fn a_second_entry_of_one_name_is_passed_over() {
    let mut job =
        ArchiveJob::new(vec!["/data/a/same.txt".to_string(), "/data/b/same.txt".to_string()]);
    look(job.step(ArchiveEvent::Start), "/data/a/same.txt");
    job.step(ArchiveEvent::Found(Stat::File));
    look(job.step(file(b"first")), "/data/b/same.txt");
    job.step(ArchiveEvent::Found(Stat::File));
    assert!(matches!(job.step(file(b"second")), ArchiveAction::Finish));
    assert_eq!(job.written(), &vec!["same.txt"]);
    assert_eq!(job.skipped(), &vec!["/data/b/same.txt"]);
    assert_eq!(unpack(job.finish()), vec![("same.txt".to_string(), false, b"first".to_vec())]);
}

#[test]
fn an_empty_file_is_an_entry() {
    let mut job = ArchiveJob::new(vec!["/data/empty".to_string()]);
    job.step(ArchiveEvent::Start);
    job.step(ArchiveEvent::Found(Stat::File));
    assert!(matches!(job.step(file(b"")), ArchiveAction::Finish));
    assert_eq!(unpack(job.finish()), vec![("empty".to_string(), false, Vec::new())]);
}

#[test]
fn a_name_too_long_for_an_archive_is_passed_over() {
    let long = "n".repeat(65536);
    let path = format!("/data/{}", long);
    let mut job = ArchiveJob::new(vec![path.clone(), "/data/ok".to_string()]);
    job.step(ArchiveEvent::Start);
    job.step(ArchiveEvent::Found(Stat::File));
    look(job.step(file(b"x")), "/data/ok");
    job.step(ArchiveEvent::Found(Stat::File));
    job.step(file(b"y"));
    assert_eq!(job.skipped(), &vec![path]);
    assert_eq!(unpack(job.finish()), vec![("ok".to_string(), false, b"y".to_vec())]);
}

#[test]
fn a_report_out_of_turn_passes_the_path_over() {
    let mut job = ArchiveJob::new(vec!["/data/a".to_string(), "/data/b".to_string()]);
    look(job.step(ArchiveEvent::Found(Stat::File)), "/data/a");
    look(job.step(ArchiveEvent::Start), "/data/b");
    assert_eq!(job.skipped(), &vec!["/data/a"]);
}

#[test]
fn the_paths_of_a_query() {
    assert_eq!(inputs("/data/a.txt").ok().unwrap(), vec!["/data/a.txt"]);
    assert_eq!(
        inputs("/data/a.txt,/data/sub, /data/b%20c ,sub/d").ok().unwrap(),
        vec!["/data/a.txt", "/data/sub", "/data/b c", "/data/sub/d"]
    );
    assert_eq!(inputs("%2Fdata%2Fx%2Cy").ok().unwrap(), vec!["/data/x,y"]);
}

#[test]
fn paths_outside_the_root_are_left_out() {
    assert_eq!(
        inputs("/etc/passwd,/data/a,../x,/data/../etc,/data2,%2e%2e,/data/b").ok().unwrap(),
        vec!["/data/a", "/data/b"]
    );
    assert!(inputs("/etc/passwd").ok().unwrap().is_empty());
    assert_eq!(inputs(",/data/a,,").ok().unwrap(), vec!["/data/a"]);
    assert_eq!(inputs("/data/a.txt,").ok().unwrap(), vec!["/data/a.txt"]);
    assert_eq!(inputs(" ,/data,").ok().unwrap(), vec!["/data"]);
}

#[test]
fn a_query_without_paths_is_a_bad_request() {
    for paths in ["", " ", ",", " , ,\t"] {
        match inputs(paths) {
            Ok(_) => panic!("the query names nothing"),
            Err(reply) => {
                assert_eq!(reply.status, 400);
                assert!(matches!(&reply.body, Body::Text(t) if t == "No files specified"));
            }
        }
    }
}

#[test]
fn a_path_outside_the_root_never_reaches_the_archive() {
    let inputs = inputs("/etc/passwd,/data/a.txt").ok().unwrap();
    assert_eq!(inputs, vec!["/data/a.txt"]);
    let mut job = ArchiveJob::new(inputs);
    look(job.step(ArchiveEvent::Start), "/data/a.txt");
    read_file(job.step(ArchiveEvent::Found(Stat::File)), "/data/a.txt");
    assert!(matches!(job.step(file(b"text")), ArchiveAction::Finish));
    assert!(job.skipped().is_empty());
    assert_eq!(unpack(job.finish()), vec![("a.txt".to_string(), false, b"text".to_vec())]);
}

#[test]
fn an_empty_directory_and_a_nested_file() {
    let mut job = ArchiveJob::new(vec!["/data/d".to_string()]);
    look(job.step(ArchiveEvent::Start), "/data/d");
    read_directory(job.step(ArchiveEvent::Found(Stat::Directory)), "/data/d");
    look(job.step(children(&["e", "s"])), "/data/d/e");
    read_directory(job.step(ArchiveEvent::Found(Stat::Directory)), "/data/d/e");
    look(job.step(children(&[])), "/data/d/s");
    read_directory(job.step(ArchiveEvent::Found(Stat::Directory)), "/data/d/s");
    look(job.step(children(&["t"])), "/data/d/s/t");
    read_directory(job.step(ArchiveEvent::Found(Stat::Directory)), "/data/d/s/t");
    look(job.step(children(&["f"])), "/data/d/s/t/f");
    read_file(job.step(ArchiveEvent::Found(Stat::File)), "/data/d/s/t/f");
    assert!(matches!(job.step(file(b"deep")), ArchiveAction::Finish));
    assert_eq!(job.written(), &vec!["e/", "s/", "s/t/", "s/t/f"]);
    assert!(job.skipped().is_empty());
    assert_eq!(
        unpack(job.finish()),
        vec![
            ("e/".to_string(), true, Vec::new()),
            ("s/".to_string(), true, Vec::new()),
            ("s/t/".to_string(), true, Vec::new()),
            ("s/t/f".to_string(), false, b"deep".to_vec()),
        ]
    );
}

#[test]
fn the_walk_goes_on_behind_an_unreadable_directory() {
    let mut job = ArchiveJob::new(vec!["/data/d".to_string()]);
    look(job.step(ArchiveEvent::Start), "/data/d");
    read_directory(job.step(ArchiveEvent::Found(Stat::Directory)), "/data/d");
    look(job.step(children(&["u", "z.txt"])), "/data/d/u");
    read_directory(job.step(ArchiveEvent::Found(Stat::Directory)), "/data/d/u");
    look(job.step(ArchiveEvent::DirectoryRead(None)), "/data/d/z.txt");
    read_file(job.step(ArchiveEvent::Found(Stat::File)), "/data/d/z.txt");
    assert!(matches!(job.step(file(b"last")), ArchiveAction::Finish));
    assert_eq!(job.written(), &vec!["u/", "z.txt"]);
    assert_eq!(job.skipped(), &vec!["/data/d/u"]);
    assert_eq!(
        unpack(job.finish()),
        vec![
            ("u/".to_string(), true, Vec::new()),
            ("z.txt".to_string(), false, b"last".to_vec()),
        ]
    );
}

#[test]
fn files_are_stored_deflated() {
    let mut job = ArchiveJob::new(vec!["/data/zeros".to_string()]);
    job.step(ArchiveEvent::Start);
    job.step(ArchiveEvent::Found(Stat::File));
    job.step(file(&vec![0u8; 100_000]));
    let reply = job.finish();
    let bytes = match reply.body {
        Body::Bytes(b) => b,
        _ => panic!("the body is not bytes"),
    };
    assert!(bytes.len() < 10_000);
    let mut archive = zip::ZipArchive::new(std::io::Cursor::new(bytes)).unwrap();
    let entry = archive.by_index(0).unwrap();
    assert_eq!(entry.compression(), zip::CompressionMethod::Deflated);
    assert_eq!(entry.size(), 100_000);
}
