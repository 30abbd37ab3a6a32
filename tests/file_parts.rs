use cratup::paths::{split_dir_path_parts_str, DirectoryType, FileParts};

#[test]
fn test_empty_relative_path() {
    let result = split_dir_path_parts_str("some/path", "some/path");
    let expected = DirectoryType::Start(FileParts {
        prefix: String::new(),
        parent: String::new(),
        file: String::new(),
    });
    assert_eq!(result, expected);
}

#[test]
fn test_single_component() {
    let result = split_dir_path_parts_str("some/path/file.txt", "some/path");
    let expected = DirectoryType::Start(FileParts {
        prefix: String::new(),
        parent: String::new(),
        file: "file.txt".to_string(),
    });
    assert_eq!(result, expected);
}

#[test]
fn test_two_components() {
    let result = split_dir_path_parts_str("some/path/dir/file.txt", "some/path");
    let expected = DirectoryType::Nested(FileParts {
        prefix: String::new(),
        parent: "dir".to_string(),
        file: "file.txt".to_string(),
    });
    assert_eq!(result, expected);
}

#[test]
fn test_deeply_nested_path() {
    let result = split_dir_path_parts_str("base/dir/subdir1/subdir2/file.txt", "base/dir");
    let expected = DirectoryType::Nested(FileParts {
        prefix: "subdir1".to_string(),
        parent: "subdir2".to_string(),
        file: "file.txt".to_string(),
    });
    assert_eq!(result, expected);
}

#[test]
fn test_non_matching_prefix() {
    let result = split_dir_path_parts_str("different/path/file.txt", "base/dir");
    let expected = DirectoryType::Nested(FileParts {
        prefix: "different".to_string(),
        parent: "path".to_string(),
        file: "file.txt".to_string(),
    });
    assert_eq!(result, expected);
}

#[test]
fn split_joins_long_prefix_with_separators() {
    let result = split_dir_path_parts_str("/root/a/b/c/d/Cargo.toml", "/root");
    let expected = DirectoryType::Nested(FileParts {
        prefix: "a/b/c".to_string(),
        parent: "d".to_string(),
        file: "Cargo.toml".to_string(),
    });
    assert_eq!(result, expected);
}

#[test]
fn split_skips_empty_components() {
    let result = split_dir_path_parts_str("root//x///Cargo.toml", "root");
    let expected = DirectoryType::Nested(FileParts {
        prefix: String::new(),
        parent: "x".to_string(),
        file: "Cargo.toml".to_string(),
    });
    assert_eq!(result, expected);
}
