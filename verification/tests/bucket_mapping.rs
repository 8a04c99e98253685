use cloud_storage_job_runner::bucket::mapping::{
    content_type, content_type_for, download_destination, find_all_files,
    is_object_a_directory, list_request, objects_to_download, upload_key, upload_request,
    uploads, ListRequest, LocalEntry, UploadRequest,
};
use cloud_storage_job_runner::{ConfigPath, JobRunnerError, PathKeyInConfig};

fn file(path: &str) -> LocalEntry {
    LocalEntry::File { path: path.to_string() }
}

fn directory(path: &str, entries: Vec<LocalEntry>) -> LocalEntry {
    LocalEntry::Directory { path: path.to_string(), entries }
}

#[test]
fn valid_dir() {
    assert!(is_object_a_directory("/"));
    assert!(is_object_a_directory("foo/"));
    assert!(is_object_a_directory("foo/bar/"));
}

#[test]
fn valid_object() {
    assert!(!is_object_a_directory("foo.txt"));
    assert!(!is_object_a_directory("foo/bar.txt"));
    assert!(!is_object_a_directory("foo/bar/baz.txt"));
    assert!(!is_object_a_directory("foo"));
    assert!(!is_object_a_directory("foo/bar"));
    assert!(!is_object_a_directory("foo/bar/baz"));
}

#[test]
fn the_empty_name_is_no_directory() {
    assert!(!is_object_a_directory(""));
}

#[test]
fn a_name_that_ends_in_a_wide_character_is_no_directory() {
    assert!(!is_object_a_directory("données/été"));
    assert!(is_object_a_directory("données/été/"));
}

#[test]
fn an_object_under_a_prefix_keeps_its_place() {
    let destination = download_destination(
        "data/x/y.txt",
        &ConfigPath::new("data"),
        &ConfigPath::new("/tmp/in"),
    );
    assert_eq!(destination, Ok("/tmp/in/x/y.txt".to_string()));
}

#[test]
fn only_the_leading_prefix_is_exchanged() {
    let destination =
        download_destination("x/x/y.txt", &ConfigPath::new("x"), &ConfigPath::new("local"));
    assert_eq!(destination, Ok("local/x/y.txt".to_string()));
}

#[test]
fn a_key_that_does_not_begin_with_the_prefix_is_kept() {
    let destination =
        download_destination("other/y.txt", &ConfigPath::new("data"), &ConfigPath::new("local"));
    assert_eq!(destination, Ok("other/y.txt".to_string()));
}

#[test]
fn the_prefix_is_exchanged_as_text() {
    // "data" is a prefix of the key as text, though not as a path.
    let destination = download_destination(
        "database/y.txt",
        &ConfigPath::new("data"),
        &ConfigPath::new("/tmp/in"),
    );
    assert_eq!(destination, Ok("/tmp/inbase/y.txt".to_string()));
}

#[test]
fn without_a_prefix_only_the_base_name_is_kept() {
    let destination =
        download_destination("a/b/c.txt", &ConfigPath::new(""), &ConfigPath::new("/tmp/in"));
    assert_eq!(destination, Ok("/tmp/in/c.txt".to_string()));
}

#[test]
fn without_a_prefix_a_key_without_separator_is_its_own_base_name() {
    let destination =
        download_destination("c.txt", &ConfigPath::new(""), &ConfigPath::new("in"));
    assert_eq!(destination, Ok("in/c.txt".to_string()));
}

#[test]
fn a_download_needs_the_text_of_both_paths() {
    let text = ConfigPath::new("somewhere");
    let none = ConfigPath::without_text();
    assert_eq!(
        download_destination("k", &text, &none),
        Err(JobRunnerError::InvalidPathError(PathKeyInConfig::LocalInputs))
    );
    assert_eq!(
        download_destination("k", &none, &text),
        Err(JobRunnerError::InvalidPathError(PathKeyInConfig::RemoteInputs))
    );
    // The local path is looked at first.
    assert_eq!(
        download_destination("k", &none, &none),
        Err(JobRunnerError::InvalidPathError(PathKeyInConfig::LocalInputs))
    );
}

#[test]
fn the_listing_is_asked_for_under_the_prefix() {
    assert_eq!(
        list_request(&ConfigPath::new("data")),
        Ok(ListRequest { prefix: Some("data".to_string()) })
    );
}

#[test]
fn the_whole_bucket_is_listed_for_the_empty_path() {
    assert_eq!(list_request(&ConfigPath::new("")), Ok(ListRequest { prefix: None }));
}

#[test]
fn no_listing_is_asked_for_a_path_without_text() {
    assert_eq!(
        list_request(&ConfigPath::without_text()),
        Err(JobRunnerError::InvalidPathError(PathKeyInConfig::RemoteInputs))
    );
}

#[test]
fn directory_markers_are_left_out_of_a_listing() {
    let names = vec![
        "data/".to_string(),
        "data/a.txt".to_string(),
        "data/sub/".to_string(),
        "data/sub/b.txt".to_string(),
        "/".to_string(),
    ];
    assert_eq!(
        objects_to_download(names),
        vec!["data/a.txt".to_string(), "data/sub/b.txt".to_string()]
    );
    assert_eq!(objects_to_download(Vec::new()), Vec::<String>::new());
}

#[test]
fn a_file_keeps_its_place_when_it_goes_up() {
    let key = upload_key(
        "/tmp/out/p/q.bin",
        &ConfigPath::new("/tmp/out"),
        &ConfigPath::new("results"),
    );
    assert_eq!(key, Ok("results/p/q.bin".to_string()));
}

#[test]
fn an_upload_needs_the_text_of_both_paths() {
    let text = ConfigPath::new("somewhere");
    let none = ConfigPath::without_text();
    assert_eq!(
        upload_key("f", &none, &text),
        Err(JobRunnerError::InvalidPathError(PathKeyInConfig::LocalOutputs))
    );
    assert_eq!(
        upload_key("f", &text, &none),
        Err(JobRunnerError::InvalidPathError(PathKeyInConfig::RemoteOutputs))
    );
    assert_eq!(
        upload_request("f", &none, &none),
        Err(JobRunnerError::InvalidPathError(PathKeyInConfig::LocalOutputs))
    );
}

#[test]
fn the_content_type_goes_by_the_name_of_the_file() {
    let local = ConfigPath::new("/tmp/out");
    let remote = ConfigPath::new("results");
    let text = upload_request("/tmp/out/notes.txt", &local, &remote).unwrap();
    assert_eq!(text.file, "/tmp/out/notes.txt");
    assert_eq!(text.key, "results/notes.txt");
    assert_eq!(text.content_type, "text/plain");
    let page = upload_request("/tmp/out/site/INDEX.HTML", &local, &remote).unwrap();
    assert_eq!(page.key, "results/site/INDEX.HTML");
    assert_eq!(page.content_type, "text/html");
}

#[test]
fn content_of_unknown_type_is_binary() {
    let local = ConfigPath::new("/tmp/out");
    let remote = ConfigPath::new("results");
    let unknown = upload_request("/tmp/out/p/q.unknown-kind", &local, &remote).unwrap();
    assert_eq!(unknown.key, "results/p/q.unknown-kind");
    assert_eq!(unknown.content_type, "application/octet-stream");
    let bare = upload_request("/tmp/out/README", &local, &remote).unwrap();
    assert_eq!(bare.content_type, "application/octet-stream");
}

#[test]
fn files_are_found_depth_first_and_directories_are_not() {
    let tree = directory(
        "out",
        vec![
            file("out/a.txt"),
            directory("out/p", vec![file("out/p/q.bin"), directory("out/p/empty", vec![])]),
            file("out/z.txt"),
        ],
    );
    assert_eq!(
        find_all_files(&tree),
        vec!["out/a.txt".to_string(), "out/p/q.bin".to_string(), "out/z.txt".to_string()]
    );
}

#[test]
fn nothing_is_found_under_what_is_no_directory() {
    assert_eq!(find_all_files(&file("out")), Vec::<String>::new());
    assert_eq!(find_all_files(&directory("out", vec![])), Vec::<String>::new());
}

#[test]
fn every_file_of_a_tree_goes_up_and_no_directory_does() {
    let tree = directory(
        "/tmp/out",
        vec![
            directory("/tmp/out/p", vec![file("/tmp/out/p/q.bin"), directory("/tmp/out/p/r", vec![])]),
            file("/tmp/out/report.json"),
        ],
    );
    let requests = uploads(&tree, &ConfigPath::new("/tmp/out"), &ConfigPath::new("results"));
    assert_eq!(
        requests,
        Ok(vec![
            UploadRequest {
                file: "/tmp/out/p/q.bin".to_string(),
                key: "results/p/q.bin".to_string(),
                content_type: "application/octet-stream".to_string(),
            },
            UploadRequest {
                file: "/tmp/out/report.json".to_string(),
                key: "results/report.json".to_string(),
                content_type: "application/json".to_string(),
            },
        ])
    );
}

#[test]
fn a_tree_without_files_needs_no_path() {
    let none = ConfigPath::without_text();
    assert_eq!(uploads(&directory("out", vec![directory("out/p", vec![])]), &none, &none), Ok(vec![]));
    assert_eq!(uploads(&file("out"), &none, &none), Ok(vec![]));
}

#[test]
fn a_tree_with_files_needs_the_text_of_both_paths() {
    let tree = directory("out", vec![file("out/a")]);
    let text = ConfigPath::new("out");
    let none = ConfigPath::without_text();
    assert_eq!(
        uploads(&tree, &none, &text),
        Err(JobRunnerError::InvalidPathError(PathKeyInConfig::LocalOutputs))
    );
    assert_eq!(
        uploads(&tree, &text, &none),
        Err(JobRunnerError::InvalidPathError(PathKeyInConfig::RemoteOutputs))
    );
}

#[test]
fn a_guess_is_the_content_type() {
    assert_eq!(content_type_for(Some("image/png".to_string())), "image/png");
}

#[test]
fn without_a_guess_the_content_is_any_bytes() {
    assert_eq!(content_type_for(None), "application/octet-stream");
}

#[test]
fn the_guess_goes_by_the_extension_without_regard_to_case() {
    assert_eq!(content_type("photo.png"), "image/png");
    assert_eq!(content_type("a/b/PHOTO.PNG"), "image/png");
    assert_eq!(content_type("png"), "application/octet-stream");
    assert_eq!(content_type(""), "application/octet-stream");
}
