use gz_claude::config::{
    default_bind_address, default_editor, default_port, Action, CommandBarItem, Config, ConfigError, GitInfoLevel,
    GlobalConfig, KeyedMap, PathKind, Project, WebClientConfig, Workspace,
};

fn action(name: &str, command: &str) -> Action {
    Action { name: name.to_string(), command: command.to_string(), icon: None }
}

fn item(key: &str, name: &str, command: &str) -> CommandBarItem {
    CommandBarItem { key: key.to_string(), name: name.to_string(), command: command.to_string(), icon: None }
}

fn config(global: KeyedMap<Action>, workspaces: KeyedMap<Workspace>) -> Config {
    Config {
        global: GlobalConfig {
            editor: default_editor(),
            git_info_level: GitInfoLevel::Minimal,
            actions: global,
            command_bar: vec![],
        },
        web_client: WebClientConfig::default(),
        workspace: workspaces,
    }
}

fn one_project_config(global: KeyedMap<Action>, path: &str) -> Config {
    let mut workspaces = KeyedMap::new();
    workspaces.insert(
        "test".to_string(),
        Workspace {
            name: "Test".to_string(),
            actions: KeyedMap::new(),
            command_bar: vec![],
            projects: vec![Project {
                name: "P1".to_string(),
                path: path.to_string(),
                actions: KeyedMap::new(),
                command_bar: vec![],
            }],
        },
    );
    config(global, workspaces)
}

fn layered_config(workspace_c: bool, project_c: bool) -> Config {
    let mut global = KeyedMap::new();
    global.insert("c".to_string(), action("Global Assist", "assist-global"));
    global.insert("g".to_string(), action("Git", "git"));
    let mut ws_actions = KeyedMap::new();
    if workspace_c {
        ws_actions.insert("c".to_string(), action("Workspace Assist", "assist-workspace"));
    }
    ws_actions.insert("t".to_string(), action("Tests", "cargo test"));
    let mut p_actions = KeyedMap::new();
    if project_c {
        p_actions.insert("c".to_string(), action("Project Assist", "assist-project"));
    }
    p_actions.insert("p".to_string(), action("Project Only", "project-cmd"));
    let mut workspaces = KeyedMap::new();
    workspaces.insert(
        "test".to_string(),
        Workspace {
            name: "Test".to_string(),
            actions: ws_actions,
            command_bar: vec![item("b", "Build", "make"), item("a", "All", "make all")],
            projects: vec![Project {
                name: "P1".to_string(),
                path: "/tmp".to_string(),
                actions: p_actions,
                command_bar: vec![item("b", "Build Project", "cargo build")],
            }],
        },
    );
    config(global, workspaces)
}

#[test]
fn when_resolving_actions_should_apply_inheritance() {
    let config = layered_config(true, true);
    let actions = config.resolve_actions("test", 0);

    assert_eq!(actions.get("c").unwrap().command, "assist-project");
    assert_eq!(actions.get("t").unwrap().command, "cargo test");
    assert_eq!(actions.get("g").unwrap().command, "git");
    assert_eq!(actions.get("p").unwrap().command, "project-cmd");
}

#[test]
fn removing_overrides_falls_back_tier_by_tier() {
    assert_eq!(layered_config(true, true).resolve_actions("test", 0).get("c").unwrap().command, "assist-project");
    assert_eq!(layered_config(true, false).resolve_actions("test", 0).get("c").unwrap().command, "assist-workspace");
    assert_eq!(layered_config(false, false).resolve_actions("test", 0).get("c").unwrap().command, "assist-global");
}

#[test]
fn missing_workspace_or_project_resolves_the_global_tier() {
    let config = layered_config(true, true);
    let none = config.resolve_actions("nope", 0);
    assert_eq!(none.len(), 2);
    assert_eq!(none.get("c").unwrap().command, "assist-global");
    let past = config.resolve_actions("test", 5);
    assert_eq!(past.len(), 3);
    assert_eq!(past.get("c").unwrap().command, "assist-workspace");
    assert!(past.get("p").is_none());
}

#[test]
fn command_bar_is_merged_by_key_and_listed_by_key() {
    let config = layered_config(true, true);
    let items = config.resolve_command_bar("test", 0);
    let keys: Vec<&str> = items.iter().map(|i| i.key.as_str()).collect();
    assert_eq!(keys, vec!["a", "b"]);
    assert_eq!(items[1].command, "cargo build");
    let ws_only = config.resolve_command_bar("test", 3);
    assert_eq!(ws_only[1].command, "make");
}

#[test]
fn when_validating_config_with_invalid_action_key_should_fail() {
    let mut global = KeyedMap::new();
    global.insert("invalid_key".to_string(), action("Test", "test"));
    let config = one_project_config(global, "/tmp");
    let result = config.validate(&vec![vec![PathKind::Directory]]);

    assert!(result.is_err());
    assert_eq!(result, Err(ConfigError::InvalidActionKey { key: "invalid_key".to_string() }));
}

#[test]
fn when_validating_config_with_empty_command_should_fail() {
    let mut global = KeyedMap::new();
    global.insert("c".to_string(), action("Assist", "   "));
    let config = one_project_config(global, "/tmp");
    let result = config.validate(&vec![vec![PathKind::Directory]]);

    assert!(result.is_err());
    assert_eq!(result, Err(ConfigError::EmptyCommand { action_name: "Assist".to_string() }));
}

#[test]
fn when_validating_config_with_nonexistent_path_should_fail() {
    let config = one_project_config(KeyedMap::new(), "/nonexistent/path/that/does/not/exist");
    let result = config.validate(&vec![vec![PathKind::Missing]]);

    assert!(result.is_err());
    assert_eq!(
        result,
        Err(ConfigError::PathNotFound { path: "/nonexistent/path/that/does/not/exist".to_string() })
    );
}

#[test]
fn when_validating_config_with_no_workspaces_should_fail() {
    let config = config(KeyedMap::new(), KeyedMap::new());
    let result = config.validate(&vec![]);

    assert!(result.is_err());
    assert_eq!(result, Err(ConfigError::NoWorkspaces));
}

#[test]
fn validating_a_file_path_fails() {
    let config = one_project_config(KeyedMap::new(), "/etc/hosts");
    assert_eq!(
        config.validate(&vec![vec![PathKind::File]]),
        Err(ConfigError::PathNotDirectory { path: "/etc/hosts".to_string() })
    );
}

#[test]
fn validating_a_sound_config_succeeds() {
    let mut global = KeyedMap::new();
    global.insert("c".to_string(), action("Assist", "assist"));
    let config = one_project_config(global, "/tmp");
    assert_eq!(config.validate(&vec![vec![PathKind::Directory]]), Ok(()));
}

#[test]
fn defaults_are_the_documented_ones() {
    assert_eq!(default_editor(), "$EDITOR");
    assert_eq!(default_bind_address(), "0.0.0.0");
    assert_eq!(default_port(), 8082);
    let web = WebClientConfig::default();
    assert!(!web.auto_start);
    assert_eq!(web.port, 8082);
}

#[test]
fn keyed_map_keeps_first_insertion_order_and_removes() {
    let mut m = KeyedMap::new();
    m.insert("b".to_string(), 1);
    m.insert("a".to_string(), 2);
    m.insert("b".to_string(), 3);
    assert_eq!(m.len(), 2);
    assert_eq!(m.entry(0), ("b", &3));
    assert_eq!(m.entry(1), ("a", &2));
    m.remove("b");
    assert_eq!(m.len(), 1);
    assert!(m.get("b").is_none());
    assert_eq!(m.get("a"), Some(&2));
}

#[test]
fn config_directory_ends_with_the_tool_name() {
    assert!(Config::default_dir().ends_with("gzc"));
    assert!(Config::default_path().ends_with("gzc/config.toml"));
}
