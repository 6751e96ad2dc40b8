use zesh::options::ZellijOptions;
use zesh::zellij::{MockZellijClient, Session, ZellijOperations};
use zesh::zoxide::{MockZoxideClient, ZoxideEntry, ZoxideOperations};

#[test]
fn test_mock_zellij_sessions() {
    let mut client = MockZellijClient::with_sessions(vec![
        Session { name: "work".to_string(), is_current: true },
        Session { name: "personal".to_string(), is_current: false },
    ]);

    // Test listing sessions
    let listed_sessions = client.list_sessions().unwrap();
    assert_eq!(listed_sessions.len(), 2);

    // Find the current session
    let current_session = listed_sessions.iter().find(|s| s.is_current).unwrap();
    assert_eq!(current_session.name, "work");

    // Test creating a new session
    client
        .new_session("project", &ZellijOptions::default())
        .unwrap();
    let updated_sessions = client.list_sessions().unwrap();
    assert_eq!(updated_sessions.len(), 3);

    // Verify the new session is current
    let new_current = updated_sessions.iter().find(|s| s.is_current).unwrap();
    assert_eq!(new_current.name, "project");
}

#[test]
fn test_mock_zellij_tabs() {
    let mut client = MockZellijClient::new();

    // Create a few tabs
    client.new_tab(Some("code")).unwrap();
    client.new_tab(Some("terminal")).unwrap();

    // List tabs
    let tabs = client.list_tabs().unwrap();
    assert_eq!(tabs.len(), 2);

    // Verify the second tab is active
    assert!(!tabs[0].is_active);
    assert!(tabs[1].is_active);

    // Rename the active tab
    client.rename_tab("console").unwrap();

    // Verify the rename worked
    let updated_tabs = client.list_tabs().unwrap();
    assert_eq!(updated_tabs[1].name, Some("console".to_string()));

    // Close the active tab
    client.close_tab().unwrap();

    // Verify we now have 1 tab and it's active
    let final_tabs = client.list_tabs().unwrap();
    assert_eq!(final_tabs.len(), 1);
    assert!(final_tabs[0].is_active);
}

#[test]
fn test_mock_zoxide_add() {
    let mut client = MockZoxideClient::new();

    client.add("/home/user/projects").unwrap();
    client.add("/home/user/documents").unwrap();
    client.add("/home/user/projects").unwrap();

    let entries = client.list().unwrap();

    assert_eq!(entries.len(), 2);
    assert_eq!(entries[0].path, "/home/user/projects");
    assert_eq!(entries[0].score, 2);
    assert_eq!(entries[1].path, "/home/user/documents");
    assert_eq!(entries[1].score, 1);
}

#[test]
fn test_mock_zoxide_query() {
    let client = MockZoxideClient::with_paths(vec![
        ZoxideEntry { path: "/home/user/projects".to_string(), score: 10 },
        ZoxideEntry { path: "/home/user/documents".to_string(), score: 5 },
        ZoxideEntry { path: "/var/log".to_string(), score: 2 },
    ]);

    let results = client.query(&vec!["user".to_string()]).unwrap();

    assert_eq!(results.len(), 2);
    assert_eq!(results[0].path, "/home/user/projects");
    assert_eq!(results[1].path, "/home/user/documents");
}
