use duster::cleaner::{delete_action, delete_files, is_safe_to_delete, CleanupResult, DeleteAction};
use duster::scanner::{Category, CleanableFile};
use duster::time::Timestamp;

const HOME: Option<&str> = Some("/home/user");

fn file(path: &str, size: u64, category: Category, is_directory: bool) -> CleanableFile {
    CleanableFile {
        path: path.to_string(),
        size,
        category,
        last_accessed: Timestamp { secs: 0, nanos: 0 },
        reason: String::new(),
        is_directory,
    }
}

#[test]
fn paths_outside_home_and_temp_are_refused() {
    assert!(!is_safe_to_delete("/etc/passwd", HOME));
    assert!(!is_safe_to_delete("/", HOME));
    assert!(!is_safe_to_delete("/home/user2/file", HOME));
    assert!(!is_safe_to_delete("/home", HOME));
    assert!(!is_safe_to_delete("relative/file", HOME));
    assert!(!is_safe_to_delete("", HOME));
    assert!(!is_safe_to_delete("/etc/passwd", None));
    assert!(!is_safe_to_delete("/home/user/Downloads/x", None));
}

#[test]
fn direct_children_of_home_need_the_allow_list() {
    assert!(!is_safe_to_delete("/home/user/Documents", HOME));
    assert!(!is_safe_to_delete("/home/user/Documents/", HOME));
    assert!(is_safe_to_delete("/home/user/.cache", HOME));
    assert!(is_safe_to_delete("/home/user/.Trash", HOME));
    assert!(!is_safe_to_delete("/home/user/.config", HOME));
}

#[test]
fn what_lies_deeper_in_home_is_permitted() {
    assert!(is_safe_to_delete("/home/user/Documents/old.txt", HOME));
    assert!(is_safe_to_delete("/home/user/.cache/pip", HOME));
    assert!(is_safe_to_delete("/home/user/projects/app/node_modules", HOME));
}

#[test]
fn temp_directories_are_permitted_below_their_roots() {
    assert!(is_safe_to_delete("/tmp/foo", HOME));
    assert!(is_safe_to_delete("/tmp/foo", None));
    assert!(is_safe_to_delete("/var/tmp/a/b", HOME));
    assert!(is_safe_to_delete("/var/folders/zz/x", HOME));
    assert!(!is_safe_to_delete("/tmp", HOME));
    assert!(!is_safe_to_delete("/var/tmp/", HOME));
    assert!(!is_safe_to_delete("/tmpfoo/x", HOME));
    assert!(!is_safe_to_delete("/var", HOME));
}

#[test]
fn the_home_directory_itself_is_refused() {
    assert!(!is_safe_to_delete("/home/user", HOME));
    assert!(!is_safe_to_delete("/home/user/", HOME));
}

#[test]
fn paths_that_climb_are_refused() {
    assert!(!is_safe_to_delete("/home/user/a/../../../etc/passwd", HOME));
    assert!(!is_safe_to_delete("/tmp/../etc/passwd", HOME));
    assert!(!is_safe_to_delete("/home/user/x/..", HOME));
}

#[test]
fn the_action_follows_the_kind_of_entry() {
    let f = file("/home/user/x/file", 1, Category::OldFile, false);
    let d = file("/home/user/x/dir", 1, Category::Cache, true);
    let bad = file("/etc/passwd", 1, Category::OldFile, false);
    assert_eq!(delete_action(&f, HOME), DeleteAction::RemoveFile);
    assert_eq!(delete_action(&d, HOME), DeleteAction::RemoveDirectory);
    assert_eq!(delete_action(&bad, HOME), DeleteAction::Refuse);
}

#[test]
fn the_account_counts_what_was_removed() {
    let files = vec![
        file("/home/user/a/one", 100, Category::Cache, false),
        file("/etc/passwd", 1000, Category::Cache, false),
        file("/home/user/a/two", 20, Category::Temp, true),
        file("/home/user/a/three", 3, Category::Cache, false),
    ];
    let outcomes = vec![Ok(()), Ok(()), Ok(()), Err("Failed to delete file: busy".to_string())];
    let result = delete_files(&files, None, HOME, &outcomes);
    assert_eq!(result.deleted_count, 2);
    assert_eq!(result.freed_bytes, 120);
    assert_eq!(
        result.errors,
        vec![
            "/etc/passwd: Refusing to delete path outside home directory".to_string(),
            "/home/user/a/three: Failed to delete file: busy".to_string(),
        ]
    );
}

#[test]
fn only_the_named_categories_are_deleted() {
    let files = vec![
        file("/home/user/a/one", 100, Category::Cache, false),
        file("/home/user/a/two", 20, Category::Temp, true),
        file("/home/user/a/three", 3, Category::Cache, false),
    ];
    let outcomes = vec![Ok(()), Ok(()), Ok(())];
    let cats = vec![Category::Cache];
    let result = delete_files(&files, Some(&cats), HOME, &outcomes);
    assert_eq!(result.deleted_count, 2);
    assert_eq!(result.freed_bytes, 103);
    assert!(result.errors.is_empty());
    let none: Vec<Category> = Vec::new();
    let result = delete_files(&files, Some(&none), HOME, &outcomes);
    assert_eq!(result.deleted_count, 0);
    assert_eq!(result.freed_bytes, 0);
}

#[test]
fn freed_bytes_stop_at_the_largest_number() {
    let mut result = CleanupResult::new();
    let big = file("/tmp/big", u64::MAX - 1, Category::Temp, false);
    result.record(&big, None, &Ok(()));
    result.record(&big, None, &Ok(()));
    assert_eq!(result.deleted_count, 2);
    assert_eq!(result.freed_bytes, u64::MAX);
}

#[test]
fn a_new_account_is_empty() {
    let result = CleanupResult::default();
    assert_eq!(result.deleted_count, 0);
    assert_eq!(result.freed_bytes, 0);
    assert!(result.errors.is_empty());
}
