use gz_claude::app::{AppState, View};
use gz_claude::config::{
    Action, CommandBarItem, Config, GitInfoLevel, GlobalConfig, KeyedMap, Project, WebClientConfig, Workspace,
};
use gz_claude::runner::{handle_action, handle_input, Effect, InputEvent, PaneManager, PaneTarget};
use gz_claude::session::Session;

fn create_test_config() -> Config {
    let mut workspaces = KeyedMap::new();
    workspaces.insert(
        "workspace-a".to_string(),
        Workspace {
            name: "Workspace A".to_string(),
            actions: KeyedMap::new(),
            command_bar: vec![],
            projects: vec![],
        },
    );
    workspaces.insert(
        "workspace-b".to_string(),
        Workspace {
            name: "Workspace B".to_string(),
            actions: KeyedMap::new(),
            command_bar: vec![],
            projects: vec![],
        },
    );

    Config {
        global: GlobalConfig {
            editor: "$EDITOR".to_string(),
            git_info_level: GitInfoLevel::Minimal,
            actions: KeyedMap::new(),
            command_bar: vec![],
        },
        web_client: WebClientConfig::default(),
        workspace: workspaces,
    }
}

fn create_test_config_with_command_bar() -> Config {
    let mut workspaces = KeyedMap::new();
    workspaces.insert(
        "workspace-a".to_string(),
        Workspace {
            name: "Workspace A".to_string(),
            actions: KeyedMap::new(),
            command_bar: vec![],
            projects: vec![],
        },
    );

    Config {
        global: GlobalConfig {
            editor: "$EDITOR".to_string(),
            git_info_level: GitInfoLevel::Minimal,
            actions: KeyedMap::new(),
            command_bar: vec![
                CommandBarItem {
                    key: "p".to_string(),
                    name: "Pipeline".to_string(),
                    command: "echo pipeline".to_string(),
                    icon: Some("🚀".to_string()),
                },
                CommandBarItem {
                    key: "d".to_string(),
                    name: "Deploy".to_string(),
                    command: "echo deploy".to_string(),
                    icon: None,
                },
            ],
        },
        web_client: WebClientConfig::default(),
        workspace: workspaces,
    }
}

fn create_config_with_project_and_action() -> Config {
    let mut actions = KeyedMap::new();
    actions.insert(
        "c".to_string(),
        Action { name: "Assist".to_string(), command: "assist".to_string(), icon: None },
    );
    let mut workspaces = KeyedMap::new();
    workspaces.insert(
        "w".to_string(),
        Workspace {
            name: "W".to_string(),
            actions: KeyedMap::new(),
            command_bar: vec![],
            projects: vec![Project {
                name: "P".to_string(),
                path: "/tmp/p".to_string(),
                actions: KeyedMap::new(),
                command_bar: vec![],
            }],
        },
    );
    Config {
        global: GlobalConfig {
            editor: "vim".to_string(),
            git_info_level: GitInfoLevel::Minimal,
            actions,
            command_bar: vec![],
        },
        web_client: WebClientConfig::default(),
        workspace: workspaces,
    }
}

fn panes() -> PaneManager {
    PaneManager::new(Session::new("s".to_string()))
}

#[test]
fn when_handling_up_input_should_decrease_index() {
    let config = create_test_config();
    let mut state = AppState::new();
    state.set_selected_index(2);

    handle_input(&mut state, &config, None, &panes(), InputEvent::Up);

    assert_eq!(state.selected_index(), 1);
}

#[test]
fn when_handling_up_at_zero_should_stay_at_zero() {
    let config = create_test_config();
    let mut state = AppState::new();
    state.set_selected_index(0);

    handle_input(&mut state, &config, None, &panes(), InputEvent::Up);

    assert_eq!(state.selected_index(), 0);
}

#[test]
fn when_handling_quit_at_workspaces_should_set_should_quit() {
    let config = create_test_config();
    let mut state = AppState::new();

    handle_input(&mut state, &config, None, &panes(), InputEvent::Quit);

    assert!(state.should_quit());
}

#[test]
fn when_handling_quit_at_projects_should_navigate_back() {
    let config = create_test_config();
    let mut state = AppState::new();
    state.navigate_to_workspace("workspace-a".to_string());

    handle_input(&mut state, &config, None, &panes(), InputEvent::Quit);

    assert!(!state.should_quit());
    assert_eq!(*state.current_view(), View::Workspaces);
}

#[test]
fn when_handling_action_at_workspaces_should_do_nothing() {
    let config = create_test_config();
    let state = AppState::new();

    assert_eq!(*state.current_view(), View::Workspaces);

    let effect = handle_action(&state, &config, &panes(), 'c');

    assert_eq!(effect, Effect::Nothing);
    assert_eq!(*state.current_view(), View::Workspaces);
    assert_eq!(state.selected_index(), 0);
    assert!(!state.should_quit());
}

#[test]
fn when_toggling_command_bar_at_workspaces_should_not_open() {
    let config = create_test_config();
    let mut state = AppState::new();

    handle_input(&mut state, &config, None, &panes(), InputEvent::ToggleCommandBar);

    assert!(!state.is_command_bar_visible());
}

#[test]
fn when_toggling_command_bar_at_projects_should_open() {
    let config = create_test_config();
    let mut state = AppState::new();
    state.navigate_to_workspace("workspace-a".to_string());

    handle_input(&mut state, &config, None, &panes(), InputEvent::ToggleCommandBar);

    assert!(state.is_command_bar_visible());
}

#[test]
fn when_pressing_esc_with_command_bar_open_should_close() {
    let config = create_test_config();
    let mut state = AppState::new();
    state.navigate_to_workspace("workspace-a".to_string());
    state.toggle_command_bar();
    assert!(state.is_command_bar_visible());

    handle_input(&mut state, &config, None, &panes(), InputEvent::Back);

    assert!(!state.is_command_bar_visible());
}

#[test]
fn when_navigating_command_bar_should_change_selection() {
    let config = create_test_config_with_command_bar();
    let mut state = AppState::new();
    state.navigate_to_workspace("workspace-a".to_string());
    state.toggle_command_bar();

    handle_input(&mut state, &config, None, &panes(), InputEvent::Right);

    assert_eq!(state.command_bar_selected(), 1);
}

#[test]
fn action_key_at_workspaces_through_input_changes_nothing() {
    let config = create_config_with_project_and_action();
    let mut state = AppState::new();
    state.set_selected_index(0);
    let effect = handle_input(&mut state, &config, None, &panes(), InputEvent::Action('c'));
    assert_eq!(effect, Effect::Nothing);
    assert_eq!(*state.current_view(), View::Workspaces);
    assert_eq!(state.selected_index(), 0);
    assert!(!state.is_command_bar_visible());
}

#[test]
fn first_launch_goes_to_main_pane_then_floating() {
    let config = create_config_with_project_and_action();
    let mut state = AppState::new();
    state.navigate_to_workspace("w".to_string());
    let mut manager = panes();

    let first = handle_input(&mut state, &config, None, &manager, InputEvent::Action('c'));
    let plan = match first {
        Effect::Launch(plan) => plan,
        other => panic!("expected a launch, got {:?}", other),
    };
    assert_eq!(plan.target, PaneTarget::Main);
    assert_eq!(plan.command, "assist /tmp/p");
    assert_eq!(plan.pane_name, Session::generate_pane_name("/tmp/p"));
    assert!(plan.fullscreen);
    manager.complete_launch(&plan, true);
    assert!(manager.main_pane_used());
    assert_eq!(manager.session().get_pane("/tmp/p").unwrap().command, "assist /tmp/p");

    for _ in 0..2 {
        let next = handle_input(&mut state, &config, None, &manager, InputEvent::Action('c'));
        match next {
            Effect::Launch(plan) => {
                assert_eq!(plan.target, PaneTarget::Floating);
                manager.complete_launch(&plan, true);
            }
            other => panic!("expected a launch, got {:?}", other),
        }
    }
}

#[test]
fn failed_first_launch_leaves_main_pane_free() {
    let mut manager = panes();
    let plan = manager.plan_launch("/tmp/p", "assist", true);
    assert_eq!(plan.target, PaneTarget::Main);
    manager.complete_launch(&plan, false);
    assert!(!manager.main_pane_used());
    assert!(manager.session().get_pane("/tmp/p").is_none());
    let retry = manager.plan_launch("/tmp/p", "assist", true);
    assert_eq!(retry.target, PaneTarget::Main);
}

#[test]
fn unbound_action_key_does_nothing() {
    let config = create_config_with_project_and_action();
    let mut state = AppState::new();
    state.navigate_to_workspace("w".to_string());
    let effect = handle_input(&mut state, &config, None, &panes(), InputEvent::Action('z'));
    assert_eq!(effect, Effect::Nothing);
}

#[test]
fn down_is_clamped_at_the_last_workspace() {
    let config = create_test_config();
    let mut state = AppState::new();
    handle_input(&mut state, &config, None, &panes(), InputEvent::Down);
    assert_eq!(state.selected_index(), 1);
    handle_input(&mut state, &config, None, &panes(), InputEvent::Down);
    assert_eq!(state.selected_index(), 1);
}

#[test]
fn enter_opens_the_selected_workspace_in_sorted_order() {
    let config = create_test_config();
    let mut state = AppState::new();
    state.set_selected_index(1);
    handle_input(&mut state, &config, None, &panes(), InputEvent::Enter);
    assert_eq!(*state.current_view(), View::Projects { workspace_id: "workspace-b".to_string() });
    assert_eq!(state.selected_index(), 0);
    handle_input(&mut state, &config, None, &panes(), InputEvent::Enter);
    assert_eq!(
        *state.current_view(),
        View::FileBrowser { workspace_id: "workspace-b".to_string(), project_index: 0 }
    );
}

#[test]
fn enter_in_the_command_bar_runs_the_selected_command() {
    let config = create_test_config_with_command_bar();
    let mut state = AppState::new();
    state.navigate_to_workspace("workspace-a".to_string());
    state.toggle_command_bar();
    let effect = handle_input(&mut state, &config, None, &panes(), InputEvent::Enter);
    assert_eq!(
        effect,
        Effect::RunCommand { pane_name: "cmd-deploy".to_string(), command: "echo deploy".to_string() }
    );
    assert!(!state.is_command_bar_visible());
}

#[test]
fn command_bar_left_from_first_wraps_to_last() {
    let config = create_test_config_with_command_bar();
    let mut state = AppState::new();
    state.navigate_to_workspace("workspace-a".to_string());
    state.toggle_command_bar();
    handle_input(&mut state, &config, None, &panes(), InputEvent::Left);
    assert_eq!(state.command_bar_selected(), 1);
    handle_input(&mut state, &config, None, &panes(), InputEvent::Right);
    assert_eq!(state.command_bar_selected(), 0);
}

#[test]
fn refresh_changes_nothing() {
    let config = create_test_config();
    let mut state = AppState::new();
    state.set_selected_index(1);
    let effect = handle_input(&mut state, &config, None, &panes(), InputEvent::Refresh);
    assert_eq!(effect, Effect::Nothing);
    assert_eq!(state.selected_index(), 1);
    assert_eq!(*state.current_view(), View::Workspaces);
}

#[test]
fn command_pane_names_are_lower_case_with_dashes() {
    let mut config = create_test_config();
    config.global.command_bar = vec![CommandBarItem {
        key: "r".to_string(),
        name: "Run All Tests".to_string(),
        command: "cargo test".to_string(),
        icon: None,
    }];
    let mut state = AppState::new();
    state.navigate_to_workspace("workspace-b".to_string());
    state.toggle_command_bar();
    let effect = handle_input(&mut state, &config, None, &panes(), InputEvent::Enter);
    assert_eq!(
        effect,
        Effect::RunCommand { pane_name: "cmd-run-all-tests".to_string(), command: "cargo test".to_string() }
    );
}
