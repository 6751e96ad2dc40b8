use zesh::clone::{CloneService, extract_repo_name};
use zesh::connection::{ConnectError, ConnectService};
use zesh::fs::{FsError, FsOperations, MockFs};
use zesh::git::{FailingGit, StubGit};
use zesh::options::ZellijOptions;
use zesh::paths::{base_name, join_path, sanitize};
use zesh::zellij::{parse_session_list, parse_tabs_json, MockZellijClient, Session, ZellijOperations};
use zesh::zoxide::{MockZoxideClient, ZoxideEntry, ZoxideOperations};

fn service_with(
    sessions: Vec<(&str, bool)>,
    zoxide: Vec<(&str, u64)>,
    dirs: Vec<(&str, &str)>,
    git: StubGit,
) -> ConnectService<MockZellijClient, MockZoxideClient, MockFs, StubGit> {
    let sessions = sessions
        .into_iter()
        .map(|(name, is_current)| Session { name: name.to_string(), is_current })
        .collect();
    let entries = zoxide
        .into_iter()
        .map(|(path, score)| ZoxideEntry { path: path.to_string(), score })
        .collect();
    let mut fs = MockFs::new();
    for (path, name) in dirs {
        fs.with_directory(path, name);
    }
    ConnectService::new(
        MockZellijClient::with_sessions(sessions),
        MockZoxideClient::with_paths(entries),
        fs,
        git,
    )
}

// Stage-1 priority: a target equal to an existing session's name attaches
// even when a same-named directory exists, and registers nothing with the
// frecency store.
#[test]
fn test_connect_prefers_session_over_directory() {
    let mut service = service_with(
        vec![("project", false), ("other", true)],
        vec![],
        vec![("project", "project")],
        StubGit::new(false, ""),
    );

    let result = service.connect("project", &ZellijOptions::default());
    assert!(result.is_ok());

    // Attached, not created: still two sessions, "project" now current.
    let sessions = service.list_sessions().unwrap();
    assert_eq!(sessions.len(), 2);
    assert!(sessions.iter().any(|s| s.name == "project" && s.is_current));
    assert!(sessions.iter().any(|s| s.name == "other" && !s.is_current));

    // No frecency registration happened.
    let entries = service.zoxide.list().unwrap();
    assert!(entries.is_empty());
}

// Entering the same directory twice attaches the second time; the session
// count is unchanged between the first and the second call.
#[test]
fn test_connect_to_directory_twice_is_idempotent() {
    let mut service = service_with(
        vec![],
        vec![],
        vec![("/mock/project", "project")],
        StubGit::new(false, ""),
    );

    assert!(service
        .connect_to_directory("/mock/project", &ZellijOptions::default())
        .is_ok());
    let count_after_first = service.list_sessions().unwrap().len();

    assert!(service
        .connect_to_directory("/mock/project", &ZellijOptions::default())
        .is_ok());
    let sessions = service.list_sessions().unwrap();
    assert_eq!(sessions.len(), count_after_first);
    assert!(sessions.iter().any(|s| s.name == "project" && s.is_current));
}

// Creating a session moves the working directory to the entered path;
// attaching to an existing session leaves it alone.
#[test]
fn test_connect_to_directory_sets_working_directory() {
    let mut service = service_with(
        vec![],
        vec![],
        vec![("/mock/project", "project")],
        StubGit::new(false, ""),
    );
    assert!(service
        .connect_to_directory("/mock/project", &ZellijOptions::default())
        .is_ok());
    assert_eq!(service.fs.current_dir().unwrap(), "/mock/project");

    let mut attached = service_with(
        vec![("project", false)],
        vec![],
        vec![("/mock/project", "project")],
        StubGit::new(false, ""),
    );
    assert!(attached
        .connect_to_directory("/mock/project", &ZellijOptions::default())
        .is_ok());
    assert_eq!(attached.fs.current_dir().unwrap(), "/mock/current");
}

// A deeper directory inside a repository: every separator of the relative
// path is rewritten to an underscore.
#[test]
fn test_session_name_deep_inside_repo() {
    let service = service_with(vec![], vec![], vec![], StubGit::new(true, "/mock/foo"));
    let name = service
        .get_session_name_for_path("/mock/foo/bar/baz")
        .unwrap();
    assert_eq!(name, "foo_bar_baz");
}

// A failed repository lookup falls back to the directory's base name
// instead of aborting the operation.
#[test]
fn test_session_name_when_git_fails() {
    let service = ConnectService::new(
        MockZellijClient::new(),
        MockZoxideClient::new(),
        MockFs::new(),
        FailingGit,
    );
    let name = service.get_session_name_for_path("/mock/plain").unwrap();
    assert_eq!(name, "plain");
}

// A path with no base name (the root) is a hard error from the naming
// step even after successful validation.
#[test]
fn test_connect_to_directory_root_has_no_name() {
    let mut service = service_with(
        vec![],
        vec![],
        vec![("/", "")],
        StubGit::new(false, ""),
    );
    let result = service.connect_to_directory("/", &ZellijOptions::default());
    assert!(matches!(
        result,
        Err(ConnectError::Fs(FsError::NoDirectoryName(_)))
    ));
}

// A frecency query that beats other entries creates a session named after
// the winning directory, and the listing afterwards shows exactly one new
// current session.
#[test]
fn test_connect_query_creates_one_current_session() {
    let mut service = service_with(
        vec![("other", true)],
        vec![("/mock/winner", 42), ("/mock/loser", 7)],
        vec![],
        StubGit::new(false, ""),
    );

    let result = service.connect("mock", &ZellijOptions::default());
    assert!(result.is_ok());

    let sessions = service.list_sessions().unwrap();
    assert_eq!(sessions.len(), 2);
    let current: Vec<_> = sessions.iter().filter(|s| s.is_current).collect();
    assert_eq!(current.len(), 1);
    assert_eq!(current[0].name, "winner");
}

// A clone failure leaves zero new sessions and zero new frecency entries.
#[test]
fn test_clone_failure_leaves_no_trace() {
    let mut service = CloneService::new(
        MockZellijClient::new(),
        MockZoxideClient::new(),
        MockFs::new(),
        StubGit::with_failing_clone(),
    );

    let result = service.clone_repo(
        "https://example.com/repo.git",
        None,
        None,
        &Vec::new(),
        &ZellijOptions::default(),
    );
    assert!(result.is_err());

    assert!(service.zellij.list_sessions().unwrap().is_empty());
    assert!(service.zoxide.list().unwrap().is_empty());
}

// The frecency keyword match is case-insensitive.
#[test]
fn test_query_is_case_insensitive() {
    let client = MockZoxideClient::with_paths(vec![ZoxideEntry {
        path: "/home/User/Projects".to_string(),
        score: 3,
    }]);
    let results = client.query(&vec!["pRoJeCtS".to_string()]).unwrap();
    assert_eq!(results.len(), 1);
    assert_eq!(results[0].path, "/home/User/Projects");
}

#[test]
fn test_parse_session_list_output() {
    let output = "work (current)\npersonal\n  spaced   \n\n";
    let sessions = parse_session_list(output).unwrap();
    assert_eq!(sessions.len(), 3);
    assert_eq!(sessions[0].name, "work");
    assert!(sessions[0].is_current);
    assert_eq!(sessions[1].name, "personal");
    assert!(!sessions[1].is_current);
    assert_eq!(sessions[2].name, "spaced");
    assert!(!sessions[2].is_current);
}

#[test]
fn test_parse_session_list_empty() {
    let sessions = parse_session_list("").unwrap();
    assert!(sessions.is_empty());
}

#[test]
fn test_parse_tabs_json_reads_empty() {
    let tabs = parse_tabs_json("[{\"position\": 0}]").unwrap();
    assert!(tabs.is_empty());
}

#[test]
fn test_extract_repo_name_repeated_suffix() {
    let name = extract_repo_name("https://host/x/repo.git.git").unwrap();
    assert_eq!(name, "repo");
}

#[test]
fn test_dir_strategy() {
    let mut fs = MockFs::new();
    fs.with_directory("/mock/valid-dir", "valid-dir");
    let (path, name) = zesh::fs::dir_strategy(&fs, "/mock/valid-dir").unwrap();
    assert_eq!(path, "/mock/valid-dir");
    assert_eq!(name, "valid-dir");
    assert!(zesh::fs::dir_strategy(&fs, "/mock/missing").is_err());
}

#[test]
fn test_path_helpers() {
    assert_eq!(base_name("/mock/foo").unwrap(), "foo");
    assert_eq!(base_name("/mock/foo///").unwrap(), "foo");
    assert_eq!(base_name("plain").unwrap(), "plain");
    assert!(base_name("///").is_none());
    assert!(base_name("").is_none());

    assert_eq!(join_path("/mock", "repo"), "/mock/repo");
    assert_eq!(join_path("/mock/", "repo"), "/mock/repo");
    assert_eq!(join_path("", "repo"), "repo");

    assert_eq!(sanitize("a/b/c"), "a_b_c");
    assert_eq!(sanitize("abc"), "abc");
}

// The clone target is the destination directory joined with the derived
// repository name, and the working directory ends up there.
#[test]
fn test_clone_registers_target_path() {
    let mut service = CloneService::new(
        MockZellijClient::new(),
        MockZoxideClient::new(),
        MockFs::new(),
        StubGit::new(false, ""),
    );

    let result = service.clone_repo(
        "https://example.com/team/tool.git",
        None,
        Some(&"/mock/parent".to_string()),
        &Vec::new(),
        &ZellijOptions::default(),
    );
    assert!(result.is_ok());

    let entries = service.zoxide.list().unwrap();
    assert_eq!(entries.len(), 1);
    assert_eq!(entries[0].path, "/mock/parent/tool");
}
