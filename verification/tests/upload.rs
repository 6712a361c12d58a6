use file_server::paths::Root;
use file_server::reply::{Body, Reply};
use file_server::types::ListQuery;
use file_server::upload::{
    handle_upload, timestamped_filename, Phase, Upload, UploadAction, UploadEvent,
};

fn root() -> Root {
    Root::new("/data").unwrap()
}

fn part(field: &str, filename: Option<&str>) -> UploadEvent {
    UploadEvent::Part { field: field.to_string(), filename: filename.map(|f| f.to_string()) }
}

fn ready(dir: Option<&str>) -> Upload {
    let root = root();
    let (state, action) = handle_upload(&root, &ListQuery { path: dir.map(|d| d.to_string()) });
    assert!(matches!(action, UploadAction::CreateDirectory(_)));
    let (state, action) = state.step(&root, UploadEvent::DirectoryCreated);
    assert!(matches!(action, UploadAction::NextPart));
    assert_eq!(state.phase, Phase::Ready);
    state
}

fn finished(action: UploadAction) -> Reply {
    match action {
        UploadAction::Finish(reply) => reply,
        _ => panic!("the upload is not over"),
    }
}

fn json(reply: &Reply) -> (u16, String) {
    match &reply.body {
        Body::Json(t) => (reply.status, t.clone()),
        _ => panic!("the body is no JSON message"),
    }
}

#[test]
fn a_file_whose_name_is_taken_gets_another_name() {
    let root = root();
    let state = ready(None);
    let (state, action) = state.step(&root, part("file", Some("x.txt")));
    assert!(matches!(&action, UploadAction::CreateNew(p) if p == "/data/x.txt"));
    assert_eq!(state.phase, Phase::Placing);
    let (state, action) =
        state.step(&root, UploadEvent::AlreadyExists { nanos: 1_700_000_000_123_456_789 });
    match &action {
        UploadAction::WriteFile(path) => {
            assert_eq!(path, "/data/x_456789.txt");
            assert_ne!(path, "/data/x.txt");
        }
        _ => panic!("the body goes to another file"),
    }
    let (state, action) = state.step(&root, UploadEvent::Written);
    assert!(matches!(action, UploadAction::NextPart));
    assert_eq!(state.written, 1);
    let (state, action) = state.step(&root, UploadEvent::EndOfParts);
    let reply = finished(action);
    assert_eq!(reply.status, 200);
    assert!(matches!(reply.body, Body::Uploaded(1)));
    assert_eq!(state.phase, Phase::Done);
}

#[test]
fn alternate_names() {
    assert_eq!(timestamped_filename("x.txt", 123_456_789), "x_456789.txt");
    assert_eq!(timestamped_filename("x.txt", 5), "x_5.txt");
    assert_eq!(timestamped_filename("x.txt", 0), "x_0.txt");
    assert_eq!(timestamped_filename("x.txt", 1_000_000), "x_0.txt");
    assert_eq!(timestamped_filename("x.txt", 999_999), "x_999999.txt");
    assert_eq!(timestamped_filename("archive.tar.gz", 42), "archive.tar_42.gz");
    assert_eq!(timestamped_filename("README", 42), "README_42");
    assert_eq!(timestamped_filename(".bashrc", 42), "_42.bashrc");
    assert_eq!(timestamped_filename("x.", 42), "x_42.");
    assert_eq!(timestamped_filename("", 42), "_42");
    assert_eq!(timestamped_filename("x.txt", u128::MAX), "x_211455.txt");
}

#[test]
fn a_new_file_is_written_under_its_own_name() {
    let root = root();
    let state = ready(Some("/data/in%20box"));
    assert_eq!(state.dir, "/data/in box");
    let (state, action) = state.step(&root, part("file", Some("a.bin")));
    assert!(matches!(&action, UploadAction::CreateNew(p) if p == "/data/in box/a.bin"));
    let (state, action) = state.step(&root, UploadEvent::Created);
    assert!(matches!(action, UploadAction::WriteBody));
    assert_eq!(state.phase, Phase::Writing);
    let (state, action) = state.step(&root, UploadEvent::Written);
    assert!(matches!(action, UploadAction::NextPart));
    assert_eq!((state.phase, state.written), (Phase::Ready, 1));
}

#[test]
fn only_file_parts_with_a_name_are_stored() {
    let root = root();
    let state = ready(None);
    let (state, action) = state.step(&root, part("comment", Some("x.txt")));
    assert!(matches!(action, UploadAction::NextPart));
    let (state, action) = state.step(&root, part("file", None));
    assert!(matches!(action, UploadAction::NextPart));
    let (state, action) = state.step(&root, part("File", Some("x.txt")));
    assert!(matches!(action, UploadAction::NextPart));
    assert_eq!((state.phase, state.written), (Phase::Ready, 0));
    let (_, action) = state.step(&root, UploadEvent::EndOfParts);
    let reply = finished(action);
    assert_eq!(reply.status, 200);
    assert!(matches!(reply.body, Body::Uploaded(0)));
}

#[test]
fn the_count_is_of_files_written() {
    let root = root();
    let mut state = ready(None);
    for name in ["a", "b", "c"] {
        let (next, _) = state.step(&root, part("file", Some(name)));
        let (next, _) = next.step(&root, UploadEvent::Created);
        let (next, _) = next.step(&root, UploadEvent::Written);
        let (next, _) = next.step(&root, part("note", Some(name)));
        state = next;
    }
    let (_, action) = state.step(&root, UploadEvent::EndOfParts);
    assert!(matches!(finished(action).body, Body::Uploaded(3)));
}

#[test]
fn a_target_outside_the_root_is_denied() {
    let root = root();
    let (state, action) = handle_upload(&root, &ListQuery { path: Some("/etc".to_string()) });
    assert_eq!(json(&finished(action)), (403, "Access denied".to_string()));
    assert_eq!(state.phase, Phase::Done);
    let (_, action) = handle_upload(&root, &ListQuery { path: Some("%2e%2e".to_string()) });
    assert_eq!(json(&finished(action)), (403, "Access denied".to_string()));
}

#[test]
fn a_file_name_that_leaves_the_root_is_denied() {
    let root = root();
    for name in ["../../etc/passwd", "/etc/passwd", ".."] {
        let (state, action) = ready(None).step(&root, part("file", Some(name)));
        assert_eq!(json(&finished(action)), (403, "Access denied".to_string()));
        assert_eq!(state.phase, Phase::Done);
    }
    let (_, action) = ready(Some("/data/a/b")).step(&root, part("file", Some("../x")));
    assert!(matches!(&action, UploadAction::CreateNew(p) if p == "/data/a/x"));
}

#[test]
fn a_directory_that_cannot_be_created() {
    let root = root();
    let (state, action) = handle_upload(&root, &ListQuery { path: None });
    assert!(matches!(&action, UploadAction::CreateDirectory(p) if p == "/data"));
    let (_, action) = state.step(&root, UploadEvent::DirectoryFailed("denied".to_string()));
    assert_eq!(
        json(&finished(action)),
        (500, "Failed to create upload directory: denied".to_string())
    );
}

#[test]
fn failures_to_store_end_the_upload() {
    let root = root();
    let (state, _) = ready(None).step(&root, part("file", Some("a")));
    let (_, action) = state.step(&root, UploadEvent::CreateFailed("disk full".to_string()));
    assert_eq!(json(&finished(action)), (500, "Failed to save file: disk full".to_string()));
    let (state, _) = ready(None).step(&root, part("file", Some("a")));
    let (state, _) = state.step(&root, UploadEvent::Created);
    let (state, action) = state.step(&root, UploadEvent::WriteFailed("quota".to_string()));
    assert_eq!(json(&finished(action)), (500, "Failed to save file: quota".to_string()));
    assert_eq!(state.phase, Phase::Done);
    let (state, _) = ready(None).step(&root, part("file", Some("a")));
    let (state, _) = state.step(&root, UploadEvent::AlreadyExists { nanos: 1 });
    let (_, action) = state.step(&root, UploadEvent::WriteFailed("quota".to_string()));
    assert_eq!(json(&finished(action)), (500, "Failed to save file: quota".to_string()));
}

#[test]
fn a_malformed_form_is_a_bad_request() {
    let root = root();
    let (_, action) = ready(None).step(&root, UploadEvent::Malformed("no boundary".to_string()));
    assert_eq!(json(&finished(action)), (400, "Failed to process upload: no boundary".to_string()));
}

#[test]
fn an_event_out_of_turn_ends_the_upload() {
    let root = root();
    let (state, action) = ready(None).step(&root, UploadEvent::Written);
    let reply = finished(action);
    assert_eq!(reply.status, 500);
    assert!(matches!(&reply.body, Body::Text(t) if t == "Unexpected event"));
    let (_, action) = state.step(&root, UploadEvent::EndOfParts);
    assert_eq!(finished(action).status, 500);
}

#[test]
fn a_form_that_breaks_off_inside_a_part_is_a_bad_request() {
    let root = root();
    let (state, action) = ready(None).step(&root, part("file", Some("cut.bin")));
    assert!(matches!(action, UploadAction::CreateNew(_)));
    let (state, action) = state.step(&root, UploadEvent::Malformed("unexpected end".to_string()));
    assert_eq!(
        json(&finished(action)),
        (400, "Failed to process upload: unexpected end".to_string())
    );
    assert_eq!((state.phase, state.written), (Phase::Done, 0));

    let (state, _) = ready(None).step(&root, part("file", Some("first.bin")));
    let (state, _) = state.step(&root, UploadEvent::Created);
    let (state, _) = state.step(&root, UploadEvent::Written);
    let (state, _) = state.step(&root, part("file", Some("cut.bin")));
    let (state, _) = state.step(&root, UploadEvent::Created);
    assert_eq!(state.phase, Phase::Writing);
    let (state, action) = state.step(&root, UploadEvent::Malformed("unexpected end".to_string()));
    assert_eq!(
        json(&finished(action)),
        (400, "Failed to process upload: unexpected end".to_string())
    );
    assert_eq!((state.phase, state.written), (Phase::Done, 1));
}
