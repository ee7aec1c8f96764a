use gz_claude::session::Session;

#[test]
fn when_creating_session_should_have_empty_panes() {
    let session = Session::new("test-session".to_string());
    assert_eq!(session.zellij_session, "test-session");
    assert!(session.panes.is_empty());
}

#[test]
fn when_registering_pane_should_store_info() {
    let mut session = Session::new("test-session".to_string());
    let path = "/test/project".to_string();

    session.register_pane(path.clone(), "gz-abc123".to_string(), "assist".to_string());

    let pane = session.get_pane(&path).unwrap();
    assert_eq!(pane.pane_name, "gz-abc123");
    assert_eq!(pane.command, "assist");
}

#[test]
fn when_generating_pane_name_should_be_deterministic() {
    let path = "/test/project".to_string();
    let name1 = Session::generate_pane_name(&path);
    let name2 = Session::generate_pane_name(&path);
    assert_eq!(name1, name2);
    assert!(name1.starts_with("gz-"));
}

#[test]
fn when_removing_pane_should_no_longer_exist() {
    let mut session = Session::new("test-session".to_string());
    let path = "/test/project".to_string();

    session.register_pane(path.clone(), "gz-abc123".to_string(), "assist".to_string());
    session.remove_pane(&path);

    assert!(session.get_pane(&path).is_none());
}

#[test]
fn pane_names_of_different_paths_differ() {
    let a = Session::generate_pane_name("/test/project-a");
    let b = Session::generate_pane_name("/test/project-b");
    assert_ne!(a, b);
    let hex = &a["gz-".len()..];
    assert!(!hex.is_empty());
    assert!(hex.chars().all(|c| c.is_ascii_hexdigit() && !c.is_ascii_uppercase()));
}

#[test]
fn registering_a_pane_again_replaces_it() {
    let mut session = Session::new("s".to_string());
    session.register_pane("/p".to_string(), "gz-1".to_string(), "a".to_string());
    session.register_pane("/p".to_string(), "gz-2".to_string(), "b".to_string());
    assert_eq!(session.panes.len(), 1);
    assert_eq!(session.get_pane("/p").unwrap().command, "b");
}

#[test]
fn session_file_is_in_the_tool_directory() {
    assert!(Session::session_path().ends_with("gzc/session.json"));
}
