use remote_agent::backup::backup_path;
use remote_agent::backup::backup_suffix;
use remote_agent::backup::is_backup_name;
use remote_agent::backup::original_path;

#[test]
fn backup_path_adds_the_suffix() {
    assert_eq!(backup_suffix(), ".prev");
    assert_eq!(backup_path("a.txt"), "a.txt.prev");
    assert_eq!(backup_path(""), ".prev");
    assert_eq!(backup_path("dir/file"), "dir/file.prev");
    assert_eq!(backup_path("a.prev"), "a.prev.prev");
}

#[test]
fn backup_names_end_in_the_suffix() {
    assert!(is_backup_name("a.txt.prev"));
    assert!(is_backup_name(".prev"));
    assert!(is_backup_name("./a.txt.prev"));
    assert!(!is_backup_name("a.txt"));
    assert!(!is_backup_name("a.prev.txt"));
    assert!(!is_backup_name("prev"));
    assert!(!is_backup_name(""));
}

#[test]
fn original_path_strips_the_suffix_once() {
    assert_eq!(original_path("a.txt.prev"), Some("a.txt".to_string()));
    assert_eq!(original_path("./a.txt.prev"), Some("./a.txt".to_string()));
    assert_eq!(original_path(".prev"), Some(String::new()));
    assert_eq!(original_path("a.prev.prev"), Some("a.prev".to_string()));
    assert_eq!(original_path("a.txt"), None);
    assert_eq!(original_path(""), None);
}

#[test]
fn original_of_a_backup_is_the_file() {
    for path in ["a.txt", "", "x.prev", "d/\u{e9}", "a.prev.prev"] {
        let backup = backup_path(path);
        assert!(is_backup_name(&backup));
        assert_eq!(original_path(&backup), Some(path.to_string()));
    }
}
