use zesh::clone::{extract_repo_name, CloneError, CloneService};
use zesh::fs::MockFs;
use zesh::git::StubGit;
use zesh::options::ZellijOptions;
use zesh::zellij::{FailingZellijClient, MockZellijClient, ZellijOperations};
use zesh::zoxide::{FailingZoxideClient, MockZoxideClient};

fn create_service(git: StubGit) -> CloneService<MockZellijClient, MockZoxideClient, MockFs, StubGit>
{
    let zellij = MockZellijClient::new();
    let zoxide = MockZoxideClient::new();
    let fs = MockFs::new();
    CloneService::new(zellij, zoxide, fs, git)
}

fn success_git() -> StubGit {
    StubGit::new(false, "")
}

#[test]
fn test_extract_repo_name_https() {
    let name = extract_repo_name("https://github.com/user/my-repo.git").unwrap();
    assert_eq!(name, "my-repo");
}

#[test]
fn test_extract_repo_name_https_no_git_suffix() {
    let name = extract_repo_name("https://github.com/user/my-repo").unwrap();
    assert_eq!(name, "my-repo");
}

#[test]
fn test_extract_repo_name_ssh() {
    let name = extract_repo_name("git@github.com:user/my-repo.git").unwrap();
    assert_eq!(name, "my-repo");
}

#[test]
fn test_extract_repo_name_trailing_slash() {
    // Trailing slash after stripping .git leaves empty last segment
    let result = extract_repo_name("/");
    assert!(result.is_err());
}

#[test]
fn test_clone_repo_success() {
    let mut service = create_service(success_git());

    let result = service.clone_repo(
        "https://github.com/user/my-repo.git",
        None,
        Some(&"/mock/parent".to_string()),
        &Vec::new(),
        &ZellijOptions::default(),
    );

    assert!(result.is_ok());

    // Verify session was created
    let sessions = service.zellij.list_sessions().unwrap();
    assert_eq!(sessions.len(), 1);
    assert_eq!(sessions[0].name, "my-repo");
}

#[test]
fn test_clone_repo_with_custom_name() {
    let mut service = create_service(success_git());

    let result = service.clone_repo(
        "https://github.com/user/my-repo.git",
        Some("custom-session"),
        Some(&"/mock/parent".to_string()),
        &Vec::new(),
        &ZellijOptions::default(),
    );

    assert!(result.is_ok());

    // Verify session was created with custom name
    let sessions = service.zellij.list_sessions().unwrap();
    assert_eq!(sessions.len(), 1);
    assert_eq!(sessions[0].name, "custom-session");
}

#[test]
fn test_clone_repo_uses_current_dir_when_no_path() {
    let mut service = create_service(success_git());

    let result = service.clone_repo(
        "https://github.com/user/my-repo.git",
        None,
        None,
        &Vec::new(),
        &ZellijOptions::default(),
    );

    assert!(result.is_ok());

    // Verify session was created
    let sessions = service.zellij.list_sessions().unwrap();
    assert_eq!(sessions.len(), 1);
    assert_eq!(sessions[0].name, "my-repo");
}

#[test]
fn test_clone_repo_git_failure() {
    let mut service = create_service(StubGit::with_failing_clone());

    let result = service.clone_repo(
        "https://github.com/user/my-repo.git",
        None,
        Some(&"/mock/parent".to_string()),
        &Vec::new(),
        &ZellijOptions::default(),
    );

    assert!(result.is_err());
    assert!(matches!(result, Err(CloneError::Git(_))));

    // Verify no session was created
    let sessions = service.zellij.list_sessions().unwrap();
    assert!(sessions.is_empty());
}

#[test]
fn test_clone_repo_invalid_url() {
    let mut service = create_service(success_git());

    let result = service.clone_repo(
        "/",
        None,
        Some(&"/mock/parent".to_string()),
        &Vec::new(),
        &ZellijOptions::default(),
    );

    assert!(result.is_err());
    assert!(matches!(result, Err(CloneError::InvalidRepoUrl)));
}

#[test]
fn test_clone_repo_zellij_failure() {
    let mut service = CloneService::new(
        FailingZellijClient::new(),
        MockZoxideClient::new(),
        MockFs::new(),
        success_git(),
    );

    let result = service.clone_repo(
        "https://github.com/user/my-repo.git",
        None,
        Some(&"/mock/parent".to_string()),
        &Vec::new(),
        &ZellijOptions::default(),
    );

    assert!(result.is_err());
    assert!(matches!(result, Err(CloneError::Zellij(_))));
}

#[test]
fn test_clone_repo_zoxide_failure() {
    let mut service = CloneService::new(
        MockZellijClient::new(),
        FailingZoxideClient::new(),
        MockFs::new(),
        success_git(),
    );

    let result = service.clone_repo(
        "https://github.com/user/my-repo.git",
        None,
        Some(&"/mock/parent".to_string()),
        &Vec::new(),
        &ZellijOptions::default(),
    );

    assert!(result.is_err());
    assert!(matches!(result, Err(CloneError::Zoxide(_))));
}

#[test]
fn test_clone_repo_with_extra_args() {
    let mut service = create_service(success_git());

    let result = service.clone_repo(
        "https://github.com/user/my-repo.git",
        None,
        Some(&"/mock/parent".to_string()),
        &vec!["--depth".to_string(), "1".to_string()],
        &ZellijOptions::default(),
    );

    assert!(result.is_ok());
    let sessions = service.zellij.list_sessions().unwrap();
    assert_eq!(sessions.len(), 1);
    assert_eq!(sessions[0].name, "my-repo");
}
