use zesh::fs::{FsOperations, MockFs};
use zesh::git::{Git, MockGit};

#[test]
fn test_validate_dir_path() {
    let mut mock_fs = MockFs::new();
    let dir_path = "/mock/valid-dir";
    mock_fs.with_directory(dir_path, "valid-dir");

    let result = mock_fs.validate_dir_path(dir_path);
    assert!(result.is_ok());
    let (path, name) = result.unwrap();
    assert_eq!(path, dir_path);
    assert_eq!(name, "valid-dir");

    // Test with non-existent path
    let result = mock_fs.validate_dir_path("/mock/non-existent");
    assert!(result.is_err());

    // Test with file instead of directory
    mock_fs.with_file("/mock/file.txt");
    let result = mock_fs.validate_dir_path("/mock/file.txt");
    assert!(result.is_err());
}

#[test]
fn test_mock_git() {
    let git = MockGit;

    let (success, top_level) = git.show_top_level("any_dir").unwrap();
    assert!(success);
    assert_eq!(top_level, "/mock/repo/top-level");

    let (success, common_dir) = git.git_common_dir("any_dir").unwrap();
    assert!(success);
    assert_eq!(common_dir, "/mock/repo/common-dir");

    let clone_output = git
        .clone("https://example.com/repo.git", ".", "repo", &Vec::new())
        .unwrap();
    assert_eq!(clone_output, "Mock clone successful");
}
