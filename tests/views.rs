use gz_claude::config::{
    Action, CommandBarItem, Config, GitInfoLevel, GlobalConfig, KeyedMap, Project, WebClientConfig, Workspace,
};
use gz_claude::file_tree::{EntryInfo, FileTree};
use gz_claude::views::{CommandBar, FileBrowserView, ProjectsView, WorkspacesView};

fn action(name: &str, command: &str, icon: Option<&str>) -> Action {
    Action { name: name.to_string(), command: command.to_string(), icon: icon.map(|i| i.to_string()) }
}

fn empty_workspace(name: &str) -> Workspace {
    Workspace { name: name.to_string(), actions: KeyedMap::new(), command_bar: vec![], projects: vec![] }
}

fn config_with(global_actions: KeyedMap<Action>, workspaces: KeyedMap<Workspace>) -> Config {
    Config {
        global: GlobalConfig {
            editor: "$EDITOR".to_string(),
            git_info_level: GitInfoLevel::Minimal,
            actions: global_actions,
            command_bar: vec![],
        },
        web_client: WebClientConfig::default(),
        workspace: workspaces,
    }
}

fn project(name: &str, path: &str) -> Project {
    Project { name: name.to_string(), path: path.to_string(), actions: KeyedMap::new(), command_bar: vec![] }
}

fn create_test_config_with_projects() -> Config {
    let mut global_actions = KeyedMap::new();
    global_actions.insert("c".to_string(), action("Assist", "assist", Some("C")));

    let mut workspace_actions = KeyedMap::new();
    workspace_actions.insert("t".to_string(), action("Tests", "cargo test", Some("T")));

    let projects = vec![
        project("Project Alpha", "/tmp/alpha"),
        project("Project Beta", "/tmp/beta"),
        project("Project Gamma", "/tmp/gamma"),
    ];

    let mut workspaces = KeyedMap::new();
    workspaces.insert(
        "fanki".to_string(),
        Workspace { name: "Fanki".to_string(), actions: workspace_actions, command_bar: vec![], projects },
    );
    config_with(global_actions, workspaces)
}

fn create_empty_workspace_config() -> Config {
    let mut workspaces = KeyedMap::new();
    workspaces.insert("empty".to_string(), empty_workspace("Empty Workspace"));
    config_with(KeyedMap::new(), workspaces)
}

fn create_test_commands() -> Vec<CommandBarItem> {
    vec![
        CommandBarItem {
            key: "p".to_string(),
            name: "Pipeline".to_string(),
            command: "gitlab-pipeline".to_string(),
            icon: Some("🚀".to_string()),
        },
        CommandBarItem {
            key: "d".to_string(),
            name: "Deploy".to_string(),
            command: "deploy-status".to_string(),
            icon: None,
        },
    ]
}

#[test]
fn when_creating_command_bar_should_have_correct_count() {
    let commands = create_test_commands();
    let bar = CommandBar::new(&commands, 0);

    assert_eq!(bar.len(), 2);
    assert!(!bar.is_empty());
}

#[test]
fn when_selecting_command_should_return_correct_item() {
    let commands = create_test_commands();
    let bar = CommandBar::new(&commands, 1);

    let selected = bar.selected_command();

    assert!(selected.is_some());
    assert_eq!(selected.unwrap().name, "Deploy");
}

#[test]
fn when_empty_commands_should_return_none() {
    let commands: Vec<CommandBarItem> = vec![];
    let bar = CommandBar::new(&commands, 0);

    assert!(bar.is_empty());
    assert!(bar.selected_command().is_none());
}

#[test]
fn when_creating_view_should_have_correct_project_count() {
    let config = create_test_config_with_projects();
    let view = ProjectsView::new(&config, "fanki", 0);

    let count = view.len();

    assert_eq!(count, 3);
    assert!(!view.is_empty());
}

#[test]
fn when_getting_resolved_actions_should_include_global_actions() {
    let config = create_test_config_with_projects();
    let view = ProjectsView::new(&config, "fanki", 0);

    let actions = view.resolved_actions();

    let action_keys: Vec<&str> = actions.iter().map(|(k, _)| k.as_str()).collect();
    assert!(action_keys.contains(&"c"), "Should include global action 'c'");
    assert!(action_keys.contains(&"t"), "Should include workspace action 't'");
    assert_eq!(actions.len(), 2);
}

#[test]
fn when_workspace_not_found_should_return_empty() {
    let config = create_empty_workspace_config();
    let view = ProjectsView::new(&config, "nonexistent", 0);

    assert!(view.is_empty());
    assert_eq!(view.len(), 0);
    assert!(view.workspace().is_none());
}

fn create_test_config() -> Config {
    let mut workspaces = KeyedMap::new();
    workspaces.insert("fanki".to_string(), empty_workspace("Fanki"));
    workspaces.insert("helios".to_string(), empty_workspace("Helios"));
    config_with(KeyedMap::new(), workspaces)
}

#[test]
fn when_creating_view_should_return_sorted_workspace_ids() {
    let config = create_test_config();
    let view = WorkspacesView::new(&config, 0);

    let ids = view.workspace_ids();

    assert_eq!(ids, vec!["fanki", "helios"]);
}

#[test]
fn when_getting_len_should_return_workspace_count() {
    let config = create_test_config();
    let view = WorkspacesView::new(&config, 0);

    let count = view.len();

    assert_eq!(count, 2);
}

#[test]
fn when_config_has_no_workspaces_should_return_empty() {
    let config = config_with(KeyedMap::new(), KeyedMap::new());
    let view = WorkspacesView::new(&config, 0);

    assert!(view.is_empty());
    assert_eq!(view.len(), 0);
    assert!(view.workspace_ids().is_empty());
}

#[test]
fn workspace_ids_are_sorted_whatever_the_insertion_order() {
    let mut workspaces = KeyedMap::new();
    workspaces.insert("zeta".to_string(), empty_workspace("Z"));
    workspaces.insert("alpha".to_string(), empty_workspace("A"));
    workspaces.insert("mid".to_string(), empty_workspace("M"));
    let config = config_with(KeyedMap::new(), workspaces);
    let view = WorkspacesView::new(&config, 0);
    assert_eq!(view.workspace_ids(), vec!["alpha", "mid", "zeta"]);
}

#[test]
fn resolved_actions_are_listed_by_key() {
    let config = create_test_config_with_projects();
    let view = ProjectsView::new(&config, "fanki", 0);
    let keys: Vec<String> = view.resolved_actions().into_iter().map(|(k, _)| k).collect();
    assert_eq!(keys, vec!["c".to_string(), "t".to_string()]);
}

#[test]
fn action_icons_are_joined_by_key() {
    let config = create_test_config_with_projects();
    let view = ProjectsView::new(&config, "fanki", 0);
    assert_eq!(view.collect_action_icons(0), "C T");
}

fn create_test_config_with_project(project_path: &str) -> Config {
    let mut global_actions = KeyedMap::new();
    global_actions.insert("c".to_string(), action("Assist", "assist", Some("C")));
    let mut workspaces = KeyedMap::new();
    workspaces.insert(
        "test-workspace".to_string(),
        Workspace {
            name: "Test Workspace".to_string(),
            actions: KeyedMap::new(),
            command_bar: vec![],
            projects: vec![project("Test Project", project_path)],
        },
    );
    config_with(global_actions, workspaces)
}

fn project_tree(root: &str) -> Option<FileTree> {
    let listing = vec![
        EntryInfo { name: "src".to_string(), is_dir: true },
        EntryInfo { name: "README.md".to_string(), is_dir: false },
    ];
    FileTree::new(root.to_string(), "proj".to_string(), true, &listing)
}

#[test]
fn when_creating_view_should_load_file_tree() {
    let config = create_test_config_with_project("/tmp/proj");

    let view = FileBrowserView::new(&config, "test-workspace", 0, 0, project_tree("/tmp/proj"));

    assert!(view.visible_count() > 0);
    assert_eq!(view.visible_count(), 3);
}

#[test]
fn when_getting_project_should_return_correct_project() {
    let config = create_test_config_with_project("/tmp/proj");

    let view = FileBrowserView::new(&config, "test-workspace", 0, 0, project_tree("/tmp/proj"));

    let project = view.project();

    assert!(project.is_some());
    assert_eq!(project.unwrap().name, "Test Project");
}

#[test]
fn file_browser_selection_reports_files_and_directories() {
    let config = create_test_config_with_project("/tmp/proj");
    let dir_view = FileBrowserView::new(&config, "test-workspace", 0, 1, project_tree("/tmp/proj"));
    assert!(!dir_view.selected_is_file());
    assert_eq!(dir_view.selected_path(), Some("/tmp/proj/src".to_string()));
    let file_view = FileBrowserView::new(&config, "test-workspace", 0, 2, project_tree("/tmp/proj"));
    assert!(file_view.selected_is_file());
    assert_eq!(file_view.selected_path(), Some("/tmp/proj/README.md".to_string()));
    let past = FileBrowserView::new(&config, "test-workspace", 0, 9, project_tree("/tmp/proj"));
    assert!(!past.selected_is_file());
    assert_eq!(past.selected_path(), None);
}

#[test]
fn file_browser_toggles_the_selected_directory() {
    let config = create_test_config_with_project("/tmp/proj");
    let mut view = FileBrowserView::new(&config, "test-workspace", 0, 1, project_tree("/tmp/proj"));
    let listing = vec![EntryInfo { name: "main.rs".to_string(), is_dir: false }];
    view.toggle_selected(&listing);
    assert_eq!(view.visible_count(), 4);
    assert_eq!(view.resolved_actions().len(), 1);
}

#[test]
fn file_browser_without_tree_shows_nothing() {
    let config = create_test_config_with_project("/tmp/proj");
    let view = FileBrowserView::new(&config, "test-workspace", 0, 0, None);
    assert_eq!(view.visible_count(), 0);
    assert!(!view.selected_is_file());
    assert!(view.selected_path().is_none());
}
