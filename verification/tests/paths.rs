use std::path::Path;
use std::path::PathBuf;

use rustwarrior_core::store::paths::get_data_dir;
use rustwarrior_core::store::paths::get_tasks_file;
use rustwarrior_core::store::paths::join;
use rustwarrior_core::store::paths::APPLICATION_NAME;
use rustwarrior_core::store::paths::OPEN_TASKS_FILE;

#[test]
fn test_get_data_dir_default() {
    let result = get_data_dir(None, Some("/home/user/.local/share"));
    assert!(result.is_some());
    let dir = PathBuf::from(result.unwrap());
    assert!(dir.ends_with("rustwarrior"));
    assert_eq!(dir, Path::new("/home/user/.local/share").join("rustwarrior"));
}

#[test]
fn test_get_data_dir_with_env() {
    let temp = tempfile::TempDir::new().expect("create temp dir");
    let path = temp.path().to_str().unwrap().to_string();

    let result = get_data_dir(Some(&path), Some("/home/user/.local/share"));

    assert!(result.is_some());
    let dir = PathBuf::from(result.unwrap());
    assert_eq!(dir, PathBuf::from(&path));
}

#[test]
fn test_get_tasks_file() {
    let temp = tempfile::TempDir::new().expect("create temp dir");
    let file = PathBuf::from(get_tasks_file(temp.path().to_str().unwrap()));
    assert!(file.ends_with("open_tasks.ndjson"));
    assert_eq!(file, temp.path().join("open_tasks.ndjson"));
}

#[test]
fn data_dir_without_platform_directory_is_none() {
    assert_eq!(get_data_dir(None, None), None);
    assert_eq!(get_data_dir(Some("/custom"), None), Some("/custom".to_string()));
}

#[test]
fn join_puts_one_separator_between() {
    assert_eq!(join("/data", "file"), "/data/file");
    assert_eq!(join("/data/", "file"), "/data/file");
    assert_eq!(join("", "file"), "file");
    assert_eq!(join("/", "file"), "/file");
    assert_eq!(join("relative/dir", "file"), "relative/dir/file");
    assert_eq!(join("/dätä", "file"), "/dätä/file");
}

#[test]
fn join_agrees_with_the_standard_library() {
    for dir in ["/data", "/data/", "", "/", "a/b", "a/b/"] {
        for name in [OPEN_TASKS_FILE, APPLICATION_NAME] {
            assert_eq!(PathBuf::from(join(dir, name)), Path::new(dir).join(name));
        }
    }
}

#[test]
fn fixed_names() {
    assert_eq!(OPEN_TASKS_FILE, "open_tasks.ndjson");
    assert_eq!(APPLICATION_NAME, "rustwarrior");
    assert_eq!(get_tasks_file("/data"), "/data/open_tasks.ndjson");
}
