use blend_scan::model::{BlendInfo, FileMeta, FlatFile, ScanResult, TreeNode};
use blend_scan::registry::{scans_map, ScanError};
use blend_scan::scan::{wanted_extension, wanted_lowercase, ScanState, ScanStatus};
use blend_scan::worker::{flat_file, root_name, ScanWorker};

fn blend(version: &str) -> BlendInfo {
    BlendInfo {
        version: Some(version.to_string()),
        raw: Some("280".to_string()),
        pointer_size: Some(64),
        endianness: Some("little".to_string()),
        thumbnail: Some("AAAA".to_string()),
        thumb_width: Some(1),
        thumb_height: Some(1),
        render_engine: Some("Cycles".to_string()),
        error: None,
    }
}

fn meta(folder: &str) -> FileMeta {
    FileMeta {
        size_bytes: 1234,
        created: Some("2024-05-06T07:08:09+02:00".to_string()),
        modified: Some("2024-06-07T08:09:10+02:00".to_string()),
        folder: folder.to_string(),
        blender: blend("2.8.0"),
    }
}

fn empty_result() -> ScanResult {
    ScanWorker::new().finish("root", "/root")
}

fn text(s: &str) -> Option<String> {
    Some(s.to_string())
}

#[test]
fn the_wanted_extension_in_any_case() {
    assert!(wanted_extension("blend"));
    assert!(wanted_extension("BLEND"));
    assert!(wanted_extension("Blend"));
    assert!(wanted_extension("bLeNd"));
    assert!(!wanted_extension(""));
    assert!(!wanted_extension("blend1"));
    assert!(!wanted_extension("blen"));
    assert!(!wanted_extension(".blend"));
    assert!(!wanted_extension("txt"));
    assert!(wanted_lowercase("blend"));
    assert!(!wanted_lowercase("BLEND"));
    assert!(!wanted_lowercase("blend "));
}

#[test]
fn status_words() {
    assert_eq!(ScanStatus::Scanning.name(), "scanning");
    assert_eq!(ScanStatus::Done.name(), "done");
    assert_eq!(ScanStatus::Error.name(), "error");
}

#[test]
fn a_new_job_is_scanning() {
    let poll = ScanState::new().snapshot(7);
    assert_eq!(poll.scan_id, 7);
    assert_eq!(poll.status, "scanning");
    assert_eq!(poll.scanned_entries, 0);
    assert_eq!(poll.found_blends, 0);
    assert_eq!(poll.current_path, None);
    assert_eq!(poll.error, None);
    assert_eq!(poll.result, None);
}

#[test]
fn entries_are_counted_and_blend_files_found() {
    let state = ScanState::new();
    let (state, inspect) = state.note_entry("/r", false, "");
    assert!(!inspect);
    let (state, inspect) = state.note_entry("/r/a.blend", true, "blend");
    assert!(inspect);
    let (state, inspect) = state.note_entry("/r/b.txt", true, "txt");
    assert!(!inspect);
    let (state, inspect) = state.note_entry("/r/dir.blend", false, "blend");
    assert!(!inspect);
    let (state, inspect) = state.note_entry("/r/C.BLEND", true, "BLEND");
    assert!(inspect);
    let poll = state.snapshot(1);
    assert_eq!(poll.scanned_entries, 5);
    assert_eq!(poll.found_blends, 2);
    assert_eq!(poll.current_path, text("/r/C.BLEND"));
    assert_eq!(poll.status, "scanning");
    assert_eq!(poll.result, None);
    assert!(poll.scanned_entries >= poll.found_blends);
}

#[test]
fn found_never_exceeds_scanned() {
    let mut state = ScanState::new();
    for i in 0..200u32 {
        let is_file = i % 3 != 0;
        let extension = if i % 2 == 0 { "blend" } else { "png" };
        let (next, _) = state.note_entry("p", is_file, extension);
        state = if i % 7 == 0 { next.note_walk_error("denied") } else { next };
        let poll = state.snapshot(1);
        assert!(poll.found_blends <= poll.scanned_entries);
    }
}

#[test]
fn a_walk_error_counts_and_leaves_a_note() {
    let state = ScanState::new();
    let (state, _) = state.note_entry("/r/a.blend", true, "blend");
    let state = state.note_walk_error("permission denied: /r/secret");
    let poll = state.snapshot(1);
    assert_eq!(poll.scanned_entries, 2);
    assert_eq!(poll.found_blends, 1);
    assert_eq!(poll.current_path, text("(walk error) permission denied: /r/secret"));
    assert_eq!(poll.error, None);
    assert_eq!(poll.status, "scanning");
}

#[test]
fn finishing_publishes_the_result_with_the_status() {
    let state = ScanState::new();
    let (state, _) = state.note_entry("/r/a.blend", true, "blend");
    let before = state.snapshot(3);
    assert_eq!(before.status, "scanning");
    assert_eq!(before.result, None);
    let state = state.finish(empty_result());
    let after = state.snapshot(3);
    assert_eq!(after.status, "done");
    assert_eq!(after.result, Some(empty_result()));
    assert_eq!(after.scanned_entries, 1);
    assert_eq!(after.found_blends, 1);
    assert_eq!(after.current_path, text("/r/a.blend"));
    assert_eq!(after.error, None);
    assert_eq!(state.snapshot(3), after);
}

#[test]
fn a_job_that_is_done_stays_as_it_is() {
    let state = ScanState::new().finish(empty_result());
    let done = state.snapshot(1);
    let (state, inspect) = state.note_entry("/late.blend", true, "blend");
    assert!(!inspect);
    let state = state.note_walk_error("late");
    let mut other = ScanWorker::new();
    other.add_file(&[], "x.blend", "/x.blend", meta("/"));
    let state = state.finish(other.finish("other", "/other"));
    assert_eq!(state.snapshot(1), done);
}

#[test]
fn flat_file_of_a_file() {
    let flat = flat_file("a.blend", "/r/sub/a.blend", &meta("/r/sub"));
    assert_eq!(
        flat,
        FlatFile {
            name: "a.blend".to_string(),
            path: "/r/sub/a.blend".to_string(),
            folder: "/r/sub".to_string(),
            size_bytes: 1234,
            created: text("2024-05-06T07:08:09+02:00"),
            modified: text("2024-06-07T08:09:10+02:00"),
            blender_version: text("2.8.0"),
            thumbnail: text("AAAA"),
            render_engine: text("Cycles"),
        }
    );
}

#[test]
fn the_name_of_the_root() {
    assert_eq!(root_name(text("scans"), "/home/me/scans"), "scans");
    assert_eq!(root_name(None, "/"), "/");
    assert_eq!(root_name(None, ".."), "..");
}

#[test]
fn scanning_an_empty_directory() {
    let registry_id;
    let mut registry = scans_map();
    registry_id = registry.start_scan(true).unwrap();
    assert!(!registry.note_entry(registry_id, "/empty", false, ""));
    let worker = ScanWorker::new();
    let result = worker.finish("empty", "/empty");
    assert_eq!(result.files, Vec::<FlatFile>::new());
    assert_eq!(
        result.tree,
        TreeNode {
            node_type: "dir".to_string(),
            name: "empty".to_string(),
            path: "/empty".to_string(),
            meta: None,
            children: Some(Vec::new()),
        }
    );
    registry.finish_scan(registry_id, result);
    let poll = registry.poll_scan(registry_id).unwrap();
    assert_eq!(poll.status, "done");
    assert_eq!(poll.scanned_entries, 1);
    assert_eq!(poll.found_blends, 0);
    let result = poll.result.unwrap();
    assert_eq!(result.tree.children, Some(Vec::new()));
    assert!(result.files.is_empty());
}

#[test]
fn a_worker_gathers_the_list_and_the_tree() {
    let mut worker = ScanWorker::new();
    let sub = vec!["sub".to_string()];
    worker.add_file(&sub, "b.blend", "/r/sub/b.blend", meta("/r/sub"));
    worker.add_file(&[], "a.blend", "/r/a.blend", meta("/r"));
    worker.add_file(&sub, "a.blend", "/r/sub/a.blend", meta("/r/sub"));
    assert_eq!(worker.found(), 3);
    let result = worker.finish("r", "/r");
    let listed: Vec<&str> = result.files.iter().map(|f| f.path.as_str()).collect();
    assert_eq!(listed, vec!["/r/sub/b.blend", "/r/a.blend", "/r/sub/a.blend"]);
    assert_eq!(result.files[0], flat_file("b.blend", "/r/sub/b.blend", &meta("/r/sub")));
    assert_eq!(result.tree.name, "r");
    assert_eq!(result.tree.path, "/r");
    let children = result.tree.children.as_ref().unwrap();
    assert_eq!(children.len(), 2);
    assert_eq!(children[0].name, "sub");
    assert_eq!(children[0].node_type, "dir");
    assert_eq!(children[1].name, "a.blend");
    assert_eq!(children[1].meta, Some(meta("/r")));
    let below: Vec<&str> =
        children[0].children.as_ref().unwrap().iter().map(|n| n.name.as_str()).collect();
    assert_eq!(below, vec!["b.blend", "a.blend"]);
    assert_eq!(result.clone(), result);
}

#[test]
fn a_missing_folder_starts_no_job() {
    let mut registry = scans_map();
    assert_eq!(registry.start_scan(false), Err(ScanError::PathNotFound));
    assert_eq!(registry.poll_scan(1).unwrap_err(), ScanError::JobNotFound);
    // the identifier was not used up
    assert_eq!(registry.start_scan(true), Ok(1));
}

#[test]
fn identifiers_start_at_one_and_grow() {
    let mut registry = scans_map();
    let first = registry.start_scan(true).unwrap();
    let second = registry.start_scan(true).unwrap();
    assert_eq!(first, 1);
    assert_eq!(second, 2);
    assert!(second > first);
    assert_eq!(registry.start_scan(false), Err(ScanError::PathNotFound));
    assert_eq!(registry.start_scan(true), Ok(3));
}

#[test]
fn two_jobs_run_side_by_side() {
    let mut registry = scans_map();
    let a = registry.start_scan(true).unwrap();
    let b = registry.start_scan(true).unwrap();
    assert_ne!(a, b);
    assert!(registry.note_entry(a, "/a/1.blend", true, "blend"));
    assert!(!registry.note_entry(b, "/b", false, ""));
    assert!(!registry.note_entry(b, "/b/readme.md", true, "md"));
    registry.note_walk_error(a, "gone");
    let mut worker = ScanWorker::new();
    worker.add_file(&[], "1.blend", "/a/1.blend", meta("/a"));
    let result_a = worker.finish("a", "/a");
    registry.finish_scan(a, result_a.clone());
    let poll_a = registry.poll_scan(a).unwrap();
    let poll_b = registry.poll_scan(b).unwrap();
    assert_eq!(poll_a.scan_id, a);
    assert_eq!(poll_a.status, "done");
    assert_eq!(poll_a.scanned_entries, 2);
    assert_eq!(poll_a.found_blends, 1);
    assert_eq!(poll_a.result, Some(result_a.clone()));
    assert_eq!(poll_b.scan_id, b);
    assert_eq!(poll_b.status, "scanning");
    assert_eq!(poll_b.scanned_entries, 2);
    assert_eq!(poll_b.found_blends, 0);
    assert_eq!(poll_b.current_path, text("/b/readme.md"));
    assert_eq!(poll_b.result, None);
    registry.finish_scan(b, empty_result());
    assert_eq!(registry.poll_scan(b).unwrap().status, "done");
    assert_eq!(registry.poll_scan(b).unwrap().result, Some(empty_result()));
    assert_eq!(registry.poll_scan(a).unwrap(), poll_a);
}

#[test]
fn polls_before_and_after_the_end_of_a_job() {
    let mut registry = scans_map();
    let id = registry.start_scan(true).unwrap();
    let poll = registry.poll_scan(id).unwrap();
    assert_eq!(poll.status, "scanning");
    assert_eq!(poll.result, None);
    registry.note_entry(id, "/r", false, "");
    let poll = registry.poll_scan(id).unwrap();
    assert_eq!(poll.status, "scanning");
    assert_eq!(poll.result, None);
    registry.finish_scan(id, empty_result());
    let first = registry.poll_scan(id).unwrap();
    let second = registry.poll_scan(id).unwrap();
    assert_eq!(first.status, "done");
    assert_eq!(first.result, Some(empty_result()));
    assert_eq!(first, second);
    // nothing that comes late changes the result
    registry.note_entry(id, "/late.blend", true, "blend");
    registry.note_walk_error(id, "late");
    let mut worker = ScanWorker::new();
    worker.add_file(&[], "x.blend", "/x.blend", meta("/"));
    registry.finish_scan(id, worker.finish("x", "/x"));
    assert_eq!(registry.poll_scan(id).unwrap(), first);
}

#[test]
fn a_poll_of_an_identifier_that_was_never_issued() {
    let mut registry = scans_map();
    assert_eq!(registry.poll_scan(0).unwrap_err(), ScanError::JobNotFound);
    assert_eq!(registry.poll_scan(1).unwrap_err(), ScanError::JobNotFound);
    let id = registry.start_scan(true).unwrap();
    assert!(registry.poll_scan(id).is_ok());
    assert_eq!(registry.poll_scan(0).unwrap_err(), ScanError::JobNotFound);
    assert_eq!(registry.poll_scan(id + 1).unwrap_err(), ScanError::JobNotFound);
    assert_eq!(registry.poll_scan(u64::MAX).unwrap_err(), ScanError::JobNotFound);
}

#[test]
fn steps_of_an_unknown_job_change_nothing() {
    let mut registry = scans_map();
    let id = registry.start_scan(true).unwrap();
    assert!(!registry.note_entry(id + 1, "/a.blend", true, "blend"));
    registry.note_walk_error(id + 1, "x");
    registry.finish_scan(id + 1, empty_result());
    assert_eq!(registry.poll_scan(id + 1).unwrap_err(), ScanError::JobNotFound);
    assert_eq!(registry.poll_scan(id).unwrap(), ScanState::new().snapshot(id));
    assert_eq!(registry.start_scan(true), Ok(id + 1));
}

#[test]
fn errors_in_words() {
    assert_eq!(ScanError::PathNotFound.message(), "Folder does not exist");
    assert_eq!(ScanError::JobNotFound.message(), "Scan id not found");
    assert_eq!(ScanError::IdsExhausted.message(), "No scan id is left");
}
