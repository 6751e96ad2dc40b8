use zesh::connection::{ConnectError, ConnectService};
use zesh::fs::{FailingFs, MockFs};
use zesh::git::StubGit;
use zesh::options::ZellijOptions;
use zesh::zellij::{FailingZellijClient, MockZellijClient, Session, ZellijOperations};
use zesh::zoxide::{FailingZoxideClient, MockZoxideClient, ZoxideEntry};

// Helper to create a ConnectService with custom mocks
fn create_service(
    zellij_sessions: Vec<(&str, bool)>,
    zoxide_paths: Vec<(&str, u64)>,
    fs_dirs: Vec<(&str, &str)>,
) -> ConnectService<MockZellijClient, MockZoxideClient, MockFs, StubGit> {
    create_service_with_git(zellij_sessions, zoxide_paths, fs_dirs, false, "./")
}

// Helper to create a ConnectService with a configurable git answer
fn create_service_with_git(
    zellij_sessions: Vec<(&str, bool)>,
    zoxide_paths: Vec<(&str, u64)>,
    fs_dirs: Vec<(&str, &str)>,
    is_git_repo: bool,
    git_root: &str,
) -> ConnectService<MockZellijClient, MockZoxideClient, MockFs, StubGit> {
    let sessions = zellij_sessions
        .into_iter()
        .map(|(name, is_current)| Session { name: name.to_string(), is_current })
        .collect();
    let zellij = MockZellijClient::with_sessions(sessions);

    let entries = zoxide_paths
        .into_iter()
        .map(|(path, score)| ZoxideEntry { path: path.to_string(), score })
        .collect();
    let zoxide = MockZoxideClient::with_paths(entries);

    let mut fs = MockFs::new();
    for (path, name) in fs_dirs {
        fs.with_directory(path, name);
    }

    ConnectService::new(zellij, zoxide, fs, StubGit::new(is_git_repo, git_root))
}

#[test]
fn test_connect_to_session_basic() {
    // Setup service with two sessions
    let mut service = create_service(
        vec![("test-session", false), ("another-session", true)],
        vec![],
        vec![],
    );

    // Test connecting to an existing session
    let result = service.connect_to_session("test-session");
    assert!(result.is_ok());

    // Verify that session is now marked as current
    let updated_sessions = service.list_sessions().unwrap();
    let session = updated_sessions
        .iter()
        .find(|s| s.name == "test-session")
        .unwrap();
    assert!(session.is_current);

    // Test connecting to non-existent session
    let result = service.connect_to_session("non-existent");
    assert!(result.is_err());
    if let Err(ConnectError::NoMatch(name)) = result {
        assert_eq!(name, "non-existent");
    } else {
        panic!("Expected ConnectError::NoMatch");
    }
}

#[test]
fn test_connect_to_session_error_handling() {
    // Test with failing zellij client
    let mut service = ConnectService::new(
        FailingZellijClient::new(),
        MockZoxideClient::new(),
        MockFs::new(),
        StubGit::new(false, "./"),
    );

    let result = service.connect_to_session("any-session");
    assert!(result.is_err());
    if let Err(ConnectError::Zellij(_)) = result {
        // Expected error
    } else {
        panic!("Expected ConnectError::Zellij");
    }
}

#[test]
fn test_connect_to_directory_new_session() {
    // Setup test directory
    let mut service = create_service(vec![], vec![], vec![("/mock/project", "project")]);

    // Test connecting to directory that doesn't have a session yet
    let result = service.connect_to_directory("/mock/project", &ZellijOptions::default());
    assert!(result.is_ok());

    // After connection, should have a new session with the directory name
    let sessions = service.list_sessions().unwrap();
    assert_eq!(sessions.len(), 1);
    assert_eq!(sessions[0].name, "project");
    assert!(sessions[0].is_current);
}

#[test]
fn test_connect_to_directory_existing_session() {
    // Setup test directory and existing session with same name
    let mut service = create_service(
        vec![("project", false)],
        vec![],
        vec![("/mock/project", "project")],
    );

    // Test connecting to directory that already has a session
    let result = service.connect_to_directory("/mock/project", &ZellijOptions::default());
    assert!(result.is_ok());

    // After connection, should attach to existing session
    let sessions = service.list_sessions().unwrap();
    assert_eq!(sessions.len(), 1);
    assert_eq!(sessions[0].name, "project");
    assert!(sessions[0].is_current);
}

#[test]
fn test_connect_to_directory_invalid_path() {
    let mut service = create_service(vec![], vec![], vec![]);

    // Test with non-existent path
    let result = service.connect_to_directory("/mock/non-existent", &ZellijOptions::default());
    assert!(result.is_err());
    if let Err(ConnectError::Fs(_)) = result {
        // Expected error
    } else {
        panic!("Expected ConnectError::Fs");
    }

    // Setup a file path (not a directory)
    let mut fs = MockFs::new();
    fs.with_file("/mock/file.txt");
    let mut service = ConnectService::new(
        MockZellijClient::new(),
        MockZoxideClient::new(),
        fs,
        StubGit::new(false, "./"),
    );

    // Test with a file path instead of directory
    let result = service.connect_to_directory("/mock/file.txt", &ZellijOptions::default());
    assert!(result.is_err());
    if let Err(ConnectError::Fs(_)) = result {
        // Expected error
    } else {
        panic!("Expected ConnectError::Fs");
    }
}

#[test]
fn test_connect_to_directory_error_handling() {
    // Setup test with failing filesystem
    let mut service = ConnectService::new(
        MockZellijClient::new(),
        MockZoxideClient::new(),
        FailingFs::new(),
        StubGit::new(false, "./"),
    );

    let result = service.connect_to_directory("/any/path", &ZellijOptions::default());
    assert!(result.is_err());
    if let Err(ConnectError::Fs(_)) = result {
        // Expected error
    } else {
        panic!("Expected ConnectError::Fs");
    }

    // Setup test with working filesystem but failing zellij
    let mut fs = MockFs::new();
    fs.with_directory("/mock/project", "project");
    let mut service = ConnectService::new(
        FailingZellijClient::new(),
        MockZoxideClient::new(),
        fs,
        StubGit::new(false, "./"),
    );

    let result = service.connect_to_directory("/mock/project", &ZellijOptions::default());
    assert!(result.is_err());
    if let Err(ConnectError::Zellij(_)) = result {
        // Expected error
    } else {
        panic!("Expected ConnectError::Zellij");
    }

    // Setup test with working filesystem and zellij but failing zoxide
    let mut fs = MockFs::new();
    fs.with_directory("/mock/project", "project");
    let mut service = ConnectService::new(
        MockZellijClient::new(),
        FailingZoxideClient::new(),
        fs,
        StubGit::new(false, "./"),
    );

    let result = service.connect_to_directory("/mock/project", &ZellijOptions::default());
    assert!(result.is_err());
    if let Err(ConnectError::Zoxide(_)) = result {
        // Expected error
    } else {
        panic!("Expected ConnectError::Zoxide");
    }
}

#[test]
fn test_connect_to_directory_with_special_chars() {
    // Test directory with spaces and special characters
    let mut service = create_service(
        vec![],
        vec![],
        vec![("/mock/special project-name!", "special project-name!")],
    );

    let result =
        service.connect_to_directory("/mock/special project-name!", &ZellijOptions::default());
    assert!(result.is_ok());

    // Verify session was created with special characters
    let sessions = service.list_sessions().unwrap();
    assert_eq!(sessions.len(), 1);
    assert_eq!(sessions[0].name, "special project-name!");
}

#[test]
fn test_connect_via_zoxide_single_match() {
    // Setup zoxide with a single matching path
    let mut service = create_service(
        vec![],
        vec![("/mock/zoxide-dir", 10)],
        vec![("/mock/zoxide-dir", "zoxide-dir")],
    );

    // Test connecting via zoxide query that matches single entry
    let result = service.connect_via_zoxide("zoxide", &ZellijOptions::default());
    assert!(result.is_ok());

    // After connection, should have a new session with the directory name
    let sessions = service.list_sessions().unwrap();
    assert_eq!(sessions.len(), 1);
    assert_eq!(sessions[0].name, "zoxide-dir");
}

#[test]
fn test_connect_via_zoxide_multiple_matches() {
    // Setup zoxide with multiple matching paths
    let mut service = create_service(
        vec![],
        vec![("/mock/best-match", 20), ("/mock/second-match", 10)],
        vec![
            ("/mock/best-match", "best-match"),
            ("/mock/second-match", "second-match"),
        ],
    );

    // Test connecting via zoxide query that matches multiple entries
    let result = service.connect_via_zoxide("match", &ZellijOptions::default());
    assert!(result.is_ok());

    // Should connect to highest scored match
    let sessions = service.list_sessions().unwrap();
    assert_eq!(sessions.len(), 1);
    assert_eq!(sessions[0].name, "best-match");
}

#[test]
fn test_connect_via_zoxide_existing_session() {
    // Setup zoxide path and existing session with same name
    let mut service = create_service(
        vec![("existing", false)],
        vec![("/mock/existing", 10)],
        vec![("/mock/existing", "existing")],
    );

    // Test connecting via zoxide when session already exists
    let result = service.connect_via_zoxide("existing", &ZellijOptions::default());
    assert!(result.is_ok());

    // Should attach to existing session
    let sessions = service.list_sessions().unwrap();
    assert_eq!(sessions.len(), 1);
    assert_eq!(sessions[0].name, "existing");
    assert!(sessions[0].is_current);
}

#[test]
fn test_connect_via_zoxide_no_matches() {
    // Setup empty zoxide database
    let mut service = create_service(vec![], vec![], vec![]);

    // Test connecting via zoxide with no matches
    let result = service.connect_via_zoxide("non-existent", &ZellijOptions::default());
    assert!(result.is_err());
    if let Err(ConnectError::NoMatch(query)) = result {
        assert_eq!(query, "non-existent");
    } else {
        panic!("Expected ConnectError::NoMatch");
    }
}

#[test]
fn test_connect_via_zoxide_error_handling() {
    // Setup failing zoxide client
    let mut service = ConnectService::new(
        MockZellijClient::new(),
        FailingZoxideClient::new(),
        MockFs::new(),
        StubGit::new(false, "./"),
    );

    let result = service.connect_via_zoxide("query", &ZellijOptions::default());
    assert!(result.is_err());
    if let Err(ConnectError::Zoxide(_)) = result {
        // Expected error
    } else {
        panic!("Expected ConnectError::Zoxide");
    }
}

#[test]
fn test_connect_success_scenarios() {
    // Setup for various connection types
    let mut service = create_service(
        vec![("existing-session", false)],
        vec![("/mock/zoxide-match", 10)],
        vec![
            ("/mock/dir-path", "dir-path"),
            ("/mock/zoxide-match", "zoxide-match"),
        ],
    );

    // 1. Test connect to existing session
    let result = service.connect("existing-session", &ZellijOptions::default());
    assert!(result.is_ok());
    let sessions = service.list_sessions().unwrap();
    assert!(
        sessions
            .iter()
            .any(|s| s.name == "existing-session" && s.is_current)
    );

    // 2. Test connect to directory path
    let result = service.connect("/mock/dir-path", &ZellijOptions::default());
    assert!(result.is_ok());
    let sessions = service.list_sessions().unwrap();
    assert!(
        sessions
            .iter()
            .any(|s| s.name == "dir-path" && s.is_current)
    );

    // 3. Test connect via zoxide query
    let result = service.connect("zoxide-match", &ZellijOptions::default());
    assert!(result.is_ok());
    let sessions = service.list_sessions().unwrap();
    assert!(
        sessions
            .iter()
            .any(|s| s.name == "zoxide-match" && s.is_current)
    );
}

#[test]
fn test_connect_fallback_behavior() {
    // Setup with no existing sessions but a valid directory
    let mut service = create_service(vec![], vec![], vec![("/mock/valid-dir", "valid-dir")]);

    // Test with a name that's not a session, should fallback to directory path
    let result = service.connect("/mock/valid-dir", &ZellijOptions::default());
    assert!(result.is_ok());

    let sessions = service.list_sessions().unwrap();
    assert_eq!(sessions.len(), 1);
    assert_eq!(sessions[0].name, "valid-dir");

    // Setup with no sessions but a zoxide match
    let mut service = create_service(
        vec![],
        vec![("/mock/zoxide-path", 10)],
        vec![("/mock/zoxide-path", "zoxide-path")],
    );

    // Test with a name that should match zoxide query
    let result = service.connect("zoxide", &ZellijOptions::default());
    assert!(result.is_ok());

    let sessions = service.list_sessions().unwrap();
    assert_eq!(sessions.len(), 1);
    assert_eq!(sessions[0].name, "zoxide-path");
}

#[test]
fn test_connect_failure_cases() {
    // Setup with nothing valid
    let mut service = create_service(vec![], vec![], vec![]);

    // Test with non-existent name
    let result = service.connect("non-existent", &ZellijOptions::default());
    assert!(result.is_err());
    if let Err(ConnectError::NoMatch(name)) = result {
        assert_eq!(name, "non-existent");
    } else {
        panic!("Expected ConnectError::NoMatch");
    }

    // Test with failing dependencies
    let mut service = ConnectService::new(
        FailingZellijClient::new(),
        MockZoxideClient::new(),
        MockFs::new(),
        StubGit::new(false, "./"),
    );

    let result = service.connect("anything", &ZellijOptions::default());
    assert!(result.is_err());
    if let Err(ConnectError::Zellij(_)) = result {
        // Expected error
    } else {
        panic!("Expected ConnectError::Zellij");
    }
}

#[test]
fn test_connect_case_sensitivity() {
    // Setup with case-sensitive session names
    let mut service = create_service(vec![("Case-Sensitive", false)], vec![], vec![]);

    // Test with exact case match
    let result = service.connect("Case-Sensitive", &ZellijOptions::default());
    assert!(result.is_ok());

    // Test with different case (should fail)
    let result = service.connect("case-sensitive", &ZellijOptions::default());
    assert!(result.is_err());
}

#[test]
fn test_list_sessions_error_handling() {
    // Setup with failing zellij
    let service = ConnectService::new(
        FailingZellijClient::new(),
        MockZoxideClient::new(),
        MockFs::new(),
        StubGit::new(false, "./"),
    );

    // Test listing sessions with failing dependency
    let result = service.list_sessions();
    assert!(result.is_err());
    if let Err(ConnectError::Zellij(_)) = result {
        // Expected error
    } else {
        panic!("Expected ConnectError::Zellij");
    }
}

#[test]
fn test_complex_workflow() {
    // Setup for a complex workflow test
    let mut service = create_service(
        vec![("existing", true)],
        vec![("/mock/project1", 10), ("/mock/project2", 5)],
        vec![
            ("/mock/project1", "project1"),
            ("/mock/project2", "project2"),
            ("/mock/project3", "project3"),
        ],
    );

    // 1. List initial sessions
    let initial_sessions = service.list_sessions().unwrap();
    assert_eq!(initial_sessions.len(), 1);
    assert_eq!(initial_sessions[0].name, "existing");

    // 2. Connect to directory directly
    let result = service.connect_to_directory("/mock/project3", &ZellijOptions::default());
    assert!(result.is_ok());

    // Verify new session created
    let sessions_after_dir = service.list_sessions().unwrap();
    assert_eq!(sessions_after_dir.len(), 2);
    assert!(
        sessions_after_dir
            .iter()
            .any(|s| s.name == "project3" && s.is_current)
    );
    assert!(
        sessions_after_dir
            .iter()
            .any(|s| s.name == "existing" && !s.is_current)
    );

    // 3. Connect via zoxide
    let result = service.connect_via_zoxide("project1", &ZellijOptions::default());
    assert!(result.is_ok());

    // Verify another session created
    let sessions_after_zoxide = service.list_sessions().unwrap();
    assert_eq!(sessions_after_zoxide.len(), 3);
    assert!(
        sessions_after_zoxide
            .iter()
            .any(|s| s.name == "project1" && s.is_current)
    );

    // 4. Connect back to first session
    let result = service.connect_to_session("existing");
    assert!(result.is_ok());

    // Verify attached to existing session
    let final_sessions = service.list_sessions().unwrap();
    assert_eq!(final_sessions.len(), 3);
    assert!(
        final_sessions
            .iter()
            .any(|s| s.name == "existing" && s.is_current)
    );
    assert!(
        final_sessions
            .iter()
            .any(|s| s.name == "project1" && !s.is_current)
    );
    assert!(
        final_sessions
            .iter()
            .any(|s| s.name == "project3" && !s.is_current)
    );
}

#[test]
fn test_get_session_name_for_git_repo() {
    // Set up mock file system with git repo structure
    let fs_dirs = vec![("/mock/foo", "foo"), ("/mock/foo/bar", "bar")];

    // Create service with git repo configuration
    let service = create_service_with_git(vec![], vec![], fs_dirs, true, "/mock/foo");

    // Test getting session name for git root
    let name = service.get_session_name_for_path("/mock/foo").unwrap();
    assert_eq!(name, "foo");

    // Test getting session name for subdirectory
    let name = service.get_session_name_for_path("/mock/foo/bar").unwrap();
    assert_eq!(name, "foo_bar");
}

#[test]
fn test_get_session_name_for_non_git_path() {
    // Set up mock file system with directory not in git repo
    let fs_dirs = vec![("/mock/not-git", "not-git")];

    // Create service with non-git configuration
    let service = create_service_with_git(vec![], vec![], fs_dirs, false, "");

    // Test getting session name for non-git path
    let name = service.get_session_name_for_path("/mock/not-git").unwrap();
    assert_eq!(name, "not-git");
}

#[test]
fn test_connect_to_git_directory() {
    // Set up mock file system with git repo structure
    let fs_dirs = vec![
        ("/mock/project", "project"),
        ("/mock/project/feature", "feature"),
    ];

    // Create service with git repo configuration
    let mut service = create_service_with_git(vec![], vec![], fs_dirs, true, "/mock/project");

    // Connect to subdirectory
    let result =
        service.connect_to_directory("/mock/project/feature", &ZellijOptions::default());
    assert!(result.is_ok());

    // Verify the session name is git-aware
    let sessions = service.list_sessions().unwrap();
    assert_eq!(sessions.len(), 1);
    assert_eq!(sessions[0].name, "project_feature");
    assert!(sessions[0].is_current);
}

#[test]
fn test_connect_to_directory_with_options() {
    // Setup test directory
    let mut service = create_service(vec![], vec![], vec![("/mock/project", "project")]);

    // Create options with debug enabled
    let options = ZellijOptions {
        new_session_with_layout: None,
        config: None,
        config_dir: None,
        data_dir: None,
        max_panes: None,
        debug: true,
    };

    // Test connecting to directory with options
    let result = service.connect_to_directory("/mock/project", &options);
    assert!(result.is_ok());

    // After connection, should have a new session with the directory name
    let sessions = service.list_sessions().unwrap();
    assert_eq!(sessions.len(), 1);
    assert_eq!(sessions[0].name, "project");
    assert!(sessions[0].is_current);
}

#[test]
fn test_connect_via_zoxide_with_options() {
    // Setup zoxide with a single matching path
    let mut service = create_service(
        vec![],
        vec![("/mock/zoxide-dir", 10)],
        vec![("/mock/zoxide-dir", "zoxide-dir")],
    );

    // Create options with custom config
    let options = ZellijOptions {
        new_session_with_layout: None,
        config: Some("custom-config.yaml".to_string()),
        config_dir: None,
        data_dir: None,
        max_panes: None,
        debug: false,
    };

    // Test connecting via zoxide with options
    let result = service.connect_via_zoxide("zoxide", &options);
    assert!(result.is_ok());

    // Should have a new session with the directory name
    let sessions = service.list_sessions().unwrap();
    assert_eq!(sessions.len(), 1);
    assert_eq!(sessions[0].name, "zoxide-dir");
    assert!(sessions[0].is_current);
}
