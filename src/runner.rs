//! Input handling and pane placement. Each input event changes the
//! navigation state and yields at most one effect on the multiplexer; the
//! caller performs the effect and reports back whether a launch succeeded.

use vstd::prelude::*;
use vstd::string::*;
use vstd::view::View as _;

use crate::app::{back_model, AppModel, AppState, View};
use crate::config::{item_pairs, keys_unique, pairs_map, CommandBarItem, Config};
use crate::file_tree::{node_at, visible, FileNode, FileTree};
use crate::ordering::text_le;
use crate::session::{pane_name_of, PaneInfo, Session};
use crate::text::{dashed, lower_of, push_char, push_dashed, to_lower};
use crate::views::{workspace_order, texts, WorkspacesView};

verus! {

/// A user input, already decoded from the keyboard.
#[derive(Debug, Clone, Copy, PartialEq, Eq)]
pub enum InputEvent {
    /// Move the selection up.
    Up,
    /// Move the selection down.
    Down,
    /// Move the command-bar selection left.
    Left,
    /// Move the command-bar selection right.
    Right,
    /// Descend a level, open a file, toggle a directory or run a command.
    Enter,
    /// Ascend a level, or close the command bar.
    Back,
    /// Quit at the top level; elsewhere the same as `Back`.
    Quit,
    /// Recompute what the views derive; the state does not change.
    Refresh,
    /// Show or hide the command bar.
    ToggleCommandBar,
    /// A key that may be bound to an action.
    Action(char),
}

/// Where a launched command runs.
#[derive(Debug, Clone, Copy, PartialEq, Eq)]
pub enum PaneTarget {
    /// The pane of the layout reserved for the first launch.
    Main,
    /// A new floating pane.
    Floating,
}

/// A command launch, as decided: where it runs, the pane name, the full
/// command and whether the pane is then made fullscreen.
#[derive(Debug, Clone, PartialEq, Eq)]
pub struct LaunchPlan {
    pub target: PaneTarget,
    pub pane_name: String,
    pub command: String,
    pub project_path: String,
    pub fullscreen: bool,
}

/// What the multiplexer is asked to do after an input.
#[derive(Debug, Clone, PartialEq, Eq)]
pub enum Effect {
    /// Nothing.
    Nothing,
    /// Launch an action's command for a project.
    Launch(LaunchPlan),
    /// Run a command-bar command in a floating pane, not made fullscreen.
    RunCommand { pane_name: String, command: String },
    /// Open a file in the editor in a new pane.
    OpenFile { cwd: String, editor: String, file: String },
}

/// Where the next launch goes: the main pane until it has been used.
pub open spec fn target_for(main_used: bool) -> PaneTarget {
    if main_used {
        PaneTarget::Floating
    } else {
        PaneTarget::Main
    }
}

/// Whether the main pane counts as used after a launch to `target` that
/// succeeded or not.
pub open spec fn used_after(main_used: bool, target: PaneTarget, succeeded: bool) -> bool {
    main_used || (succeeded && target == PaneTarget::Main)
}

/// The pane placement policy and the record of launched panes.
pub struct PaneManager {
    main_pane_used: bool,
    session: Session,
}

impl PaneManager {
    /// Whether a launch has gone to the main pane in this process.
    pub closed spec fn main_used(&self) -> bool {
        self.main_pane_used
    }

    /// The session record.
    pub closed spec fn session_spec(&self) -> Session {
        self.session
    }

    /// A manager that has launched nothing yet, over `session`.
    pub fn new(session: Session) -> (r: Self)
        ensures
            !r.main_used(),
            r.session_spec() == session,
    {
        PaneManager { main_pane_used: false, session }
    }

    /// Whether a launch has gone to the main pane.
    pub fn main_pane_used(&self) -> (r: bool)
        ensures
            r == self.main_used(),
    {
        self.main_pane_used
    }

    /// The session record.
    pub fn session(&self) -> (r: &Session)
        ensures
            *r == self.session_spec(),
    {
        &self.session
    }

    /// The launch of `command` for the project at `project_path`: the
    /// command followed by the path, in the main pane if it is still unused
    /// and in a floating pane named after the path otherwise.
    pub fn plan_launch(&self, project_path: &str, command: &str, fullscreen: bool) -> (r: LaunchPlan)
        ensures
            r.target == target_for(self.main_used()),
            r.pane_name@ == pane_name_of(project_path@),
            r.command@ == command@ + " "@ + project_path@,
            r.project_path@ == project_path@,
            r.fullscreen == fullscreen,
    {
        let mut full = String::from_str(command);
        full.append(" ");
        full.append(project_path);
        LaunchPlan {
            target: if self.main_pane_used { PaneTarget::Floating } else { PaneTarget::Main },
            pane_name: Session::generate_pane_name(project_path),
            command: full,
            project_path: String::from_str(project_path),
            fullscreen,
        }
    }

    /// Takes note of how a launch went: a success marks the main pane used
    /// if the launch went there, and records the project's pane; a failure
    /// changes nothing, so that a retry can still reach the main pane.
    pub fn complete_launch(&mut self, plan: &LaunchPlan, succeeded: bool)
        requires
            old(self).session_spec().panes.wf(),
        ensures
            final(self).main_used() == used_after(old(self).main_used(), plan.target, succeeded),
            final(self).session_spec().panes.wf(),
            final(self).session_spec().zellij_session == old(self).session_spec().zellij_session,
            succeeded ==> final(self).session_spec().panes.as_map() == old(self).session_spec().panes.as_map().insert(
                plan.project_path@,
                PaneInfo { pane_name: plan.pane_name, command: plan.command },
            ),
            !succeeded ==> final(self).session_spec() == old(self).session_spec(),
    {
        if succeeded {
            match plan.target {
                PaneTarget::Main => {
                    self.main_pane_used = true;
                },
                PaneTarget::Floating => {},
            }
            self.session.register_pane(plan.project_path.clone(), plan.pane_name.clone(), plan.command.clone());
        }
    }
}

/// The first successful launch of a process goes to the main pane, and only
/// once: a failed launch leaves the main pane free, and once it is used
/// every later launch goes to a floating pane.
pub proof fn lemma_main_pane_once(main_used: bool, target: PaneTarget, succeeded: bool)
    ensures
        target_for(false) == PaneTarget::Main,
        used_after(false, PaneTarget::Main, true),
        !used_after(false, PaneTarget::Main, false),
        main_used ==> target_for(main_used) == PaneTarget::Floating,
        main_used ==> used_after(main_used, target, succeeded),
{
}

/// The workspace and project whose actions apply in view `v` with
/// selection `sel`: the selected project in the project list, the project
/// of the file browser; none at the workspace list.
pub open spec fn project_context(v: View, sel: usize) -> Option<(Seq<char>, int)> {
    match v {
        View::Workspaces => None,
        View::Projects { workspace_id } => Some((workspace_id@, sel as int)),
        View::FileBrowser { workspace_id, project_index } => Some((workspace_id@, project_index as int)),
    }
}

/// Whether `items` lists the command-bar items in force for the view of
/// `m`, each key once, by key; at the workspace list there are none.
pub open spec fn bar_listing(config: Config, m: AppModel, items: Seq<CommandBarItem>) -> bool {
    match project_context(m.view, m.selected_index) {
        None => items.len() == 0,
        Some((w, p)) => {
            &&& keys_unique(item_pairs(items))
            &&& pairs_map(item_pairs(items)) == config.command_bar_spec(w, p)
            &&& forall|k: int| 0 <= k < items.len() - 1 ==> text_le((#[trigger] items[k]).key@, items[k + 1].key@)
        },
    }
}

/// The name of the floating pane of a command-bar command: `cmd-` and the
/// command's name in lower case with spaces as dashes.
pub open spec fn command_pane_name(name: Seq<char>) -> Seq<char> {
    "cmd-"@ + dashed(lower_of(name))
}

/// Whether `e` runs the command-bar item at `sel` of `items`, or is
/// nothing when there is no such item.
pub open spec fn runs_item(items: Seq<CommandBarItem>, sel: usize, e: Effect) -> bool {
    if sel < items.len() {
        e matches Effect::RunCommand { pane_name, command } && pane_name@ == command_pane_name(items[sel as int].name@)
            && command == items[sel as int].command
    } else {
        e == Effect::Nothing
    }
}

/// The model with the command bar hidden and its selection reset.
pub open spec fn hidden_bar(m: AppModel) -> AppModel {
    AppModel { command_bar_visible: false, command_bar_selected: 0, ..m }
}

/// The command-bar selection after moving right among `n` commands.
pub open spec fn bar_next(sel: usize, n: nat) -> usize {
    if n > 0 {
        ((sel + 1) % (n as int)) as usize
    } else {
        sel
    }
}

/// The command-bar selection after moving left among `n` commands.
pub open spec fn bar_prev(sel: usize, n: nat) -> usize {
    if n == 0 {
        sel
    } else if sel == 0 {
        (n - 1) as usize
    } else {
        (sel - 1) as usize
    }
}

/// How an event acts while the command bar is shown, given the items it
/// lists.
pub open spec fn bar_step(m: AppModel, items: Seq<CommandBarItem>, event: InputEvent, after: AppModel, e: Effect) -> bool {
    match event {
        InputEvent::Left => after == (AppModel { command_bar_selected: bar_prev(m.command_bar_selected, items.len()), ..m })
            && e == Effect::Nothing,
        InputEvent::Right => after == (AppModel { command_bar_selected: bar_next(m.command_bar_selected, items.len()), ..m })
            && e == Effect::Nothing,
        InputEvent::Enter => after == hidden_bar(m) && runs_item(items, m.command_bar_selected, e),
        InputEvent::Back | InputEvent::ToggleCommandBar | InputEvent::Quit => after == hidden_bar(m) && e == Effect::Nothing,
        _ => after == m && e == Effect::Nothing,
    }
}

/// The number of items of the current view: workspaces, projects of the
/// workspace, or nodes shown by the tree of the file browser.
pub open spec fn max_index_spec(config: Config, m: AppModel, tree: Option<FileTree>) -> nat {
    match m.view {
        View::Workspaces => config.workspace.pairs().len(),
        View::Projects { workspace_id } => match config.workspace_spec(workspace_id@) {
            Some(w) => w.projects@.len(),
            None => 0,
        },
        View::FileBrowser { .. } => match tree {
            Some(t) => visible(t.root).len(),
            None => 0,
        },
    }
}

/// The node selected in the file browser's tree.
pub open spec fn selected_node(tree: Option<FileTree>, sel: usize) -> Option<FileNode> {
    match tree {
        Some(t) => if sel < visible(t.root).len() {
            node_at(t.root, visible(t.root)[sel as int])
        } else {
            None
        },
        None => None,
    }
}

/// How Enter acts outside the command bar: it opens the selected
/// workspace or project, or in the file browser opens the selected file in
/// the editor or toggles the selected directory.
pub open spec fn enter_step(config: Config, tree: Option<FileTree>, m: AppModel, after: AppModel, e: Effect) -> bool {
    match m.view {
        View::Workspaces => e == Effect::Nothing && exists|ids: Seq<Seq<char>>| {
            &&& workspace_order(config, ids)
            &&& if m.selected_index < ids.len() {
                &&& after.view matches View::Projects { workspace_id } && workspace_id@ == ids[m.selected_index as int]
                &&& after == (AppModel { view: after.view, selected_index: 0, command_bar_visible: false, command_bar_selected: 0, ..m })
            } else {
                after == m
            }
        },
        View::Projects { workspace_id } => e == Effect::Nothing && after == (AppModel {
            view: View::FileBrowser { workspace_id, project_index: m.selected_index },
            selected_index: 0,
            command_bar_visible: false,
            command_bar_selected: 0,
            ..m
        }),
        View::FileBrowser { workspace_id, project_index } => match selected_node(tree, m.selected_index) {
            Some(n) => if n.is_dir {
                e == Effect::Nothing && after == (AppModel {
                    expanded_dirs: if m.expanded_dirs.contains(n.path@) {
                        m.expanded_dirs.remove(n.path@)
                    } else {
                        m.expanded_dirs.insert(n.path@)
                    },
                    ..m
                })
            } else {
                &&& after == m
                &&& match config.project_spec(workspace_id@, project_index as int) {
                    Some(p) => e matches Effect::OpenFile { cwd, editor, file } && cwd@ == p.path@
                        && editor@ == config.global.editor@ && file@ == n.path@,
                    None => e == Effect::Nothing,
                }
            },
            None => after == m && e == Effect::Nothing,
        },
    }
}

/// What an action key does: in a project context where the key is bound
/// and the project exists, launch the bound command for the project's path
/// where the pane policy says; otherwise nothing.
pub open spec fn action_effect(config: Config, m: AppModel, main_used: bool, key: char, e: Effect) -> bool {
    match project_context(m.view, m.selected_index) {
        None => e == Effect::Nothing,
        Some((w, p)) => {
            let actions = config.actions_spec(w, p);
            if actions.contains_key(seq![key]) && config.project_spec(w, p) is Some {
                let path = config.project_spec(w, p).unwrap().path@;
                e matches Effect::Launch(plan) && {
                    &&& plan.target == target_for(main_used)
                    &&& plan.pane_name@ == pane_name_of(path)
                    &&& plan.command@ == actions[seq![key]].command@ + " "@ + path
                    &&& plan.project_path@ == path
                    &&& plan.fullscreen
                }
            } else {
                e == Effect::Nothing
            }
        },
    }
}

/// How an event acts: the state after it and the effect it yields.
pub open spec fn input_step(
    config: Config,
    tree: Option<FileTree>,
    main_used: bool,
    m: AppModel,
    event: InputEvent,
    after: AppModel,
    e: Effect,
) -> bool {
    if m.command_bar_visible {
        exists|items: Seq<CommandBarItem>| bar_listing(config, m, items) && bar_step(m, items, event, after, e)
    } else {
        match event {
            InputEvent::Up => e == Effect::Nothing && after == (AppModel {
                selected_index: if m.selected_index > 0 { (m.selected_index - 1) as usize } else { m.selected_index },
                ..m
            }),
            InputEvent::Down => {
                let max = max_index_spec(config, m, tree);
                e == Effect::Nothing && after == (AppModel {
                    selected_index: if max > 0 && m.selected_index < max - 1 {
                        (m.selected_index + 1) as usize
                    } else {
                        m.selected_index
                    },
                    ..m
                })
            },
            InputEvent::Left | InputEvent::Right | InputEvent::Refresh => after == m && e == Effect::Nothing,
            InputEvent::Enter => enter_step(config, tree, m, after, e),
            InputEvent::Back => after == back_model(m) && e == Effect::Nothing,
            InputEvent::Quit => e == Effect::Nothing && if m.view == View::Workspaces {
                after == (AppModel { should_quit: true, ..m })
            } else {
                after == back_model(m)
            },
            InputEvent::ToggleCommandBar => e == Effect::Nothing && if m.view == View::Workspaces {
                after == m
            } else {
                after == (AppModel { command_bar_visible: !m.command_bar_visible, command_bar_selected: 0, ..m })
            },
            InputEvent::Action(key) => after == m && action_effect(config, m, main_used, key, e),
        }
    }
}

/// Changes the state as `event` asks and returns what the multiplexer is
/// to do. `tree` is the file tree of the project shown when the view is the
/// file browser.
pub fn handle_input(
    state: &mut AppState,
    config: &Config,
    tree: Option<&FileTree>,
    panes: &PaneManager,
    event: InputEvent,
) -> (r: Effect)
    requires
        config.wf(),
        tree matches Some(t) ==> t.wf(),
    ensures
        input_step(
            *config,
            match tree {
                Some(t) => Some(*t),
                None => None,
            },
            panes.main_used(),
            old(state).model(),
            event,
            final(state).model(),
            r,
        ),
{
    if state.is_command_bar_visible() {
        return handle_command_bar_input(state, config, event);
    }
    match event {
        InputEvent::Up => {
            let current = state.selected_index();
            if current > 0 {
                state.set_selected_index(current - 1);
            }
            Effect::Nothing
        },
        InputEvent::Down => {
            let current = state.selected_index();
            let max_index = get_max_index(state, config, tree);
            if max_index > 0 && current < max_index - 1 {
                state.set_selected_index(current + 1);
            }
            Effect::Nothing
        },
        InputEvent::Left | InputEvent::Right | InputEvent::Refresh => Effect::Nothing,
        InputEvent::Enter => handle_enter(state, config, tree),
        InputEvent::Back => {
            state.navigate_back();
            Effect::Nothing
        },
        InputEvent::Quit => {
            if matches!(state.current_view(), View::Workspaces) {
                state.quit();
            } else {
                state.navigate_back();
            }
            Effect::Nothing
        },
        InputEvent::ToggleCommandBar => {
            if !matches!(state.current_view(), View::Workspaces) {
                state.toggle_command_bar();
            }
            Effect::Nothing
        },
        InputEvent::Action(key) => handle_action(state, config, panes, key),
    }
}

/// Handles an event while the command bar is shown: Left and Right move
/// its selection round the bar, Enter runs the selected command and hides
/// the bar, Back, Quit and the toggle hide it; other events are ignored.
pub fn handle_command_bar_input(state: &mut AppState, config: &Config, event: InputEvent) -> (r: Effect)
    requires
        config.wf(),
    ensures
        exists|items: Seq<CommandBarItem>|
            bar_listing(*config, old(state).model(), items) && bar_step(
                old(state).model(),
                items,
                event,
                final(state).model(),
                r,
            ),
{
    let commands = get_command_bar_items(state, config);
    let max = commands.len();
    let ghost items = commands@;
    match event {
        InputEvent::Left => {
            state.command_bar_select_prev(max);
            Effect::Nothing
        },
        InputEvent::Right => {
            state.command_bar_select_next(max);
            Effect::Nothing
        },
        InputEvent::Enter => {
            let e = execute_command_bar_item(state, &commands);
            state.hide_command_bar();
            e
        },
        InputEvent::Back | InputEvent::ToggleCommandBar | InputEvent::Quit => {
            state.hide_command_bar();
            Effect::Nothing
        },
        _ => Effect::Nothing,
    }
}

/// The command-bar items in force for the current view, by key.
pub fn get_command_bar_items(state: &AppState, config: &Config) -> (r: Vec<CommandBarItem>)
    requires
        config.wf(),
    ensures
        bar_listing(*config, state.model(), r@),
{
    match state.current_view() {
        View::Projects { workspace_id } => config.resolve_command_bar(workspace_id.as_str(), state.selected_index()),
        View::FileBrowser { workspace_id, project_index } => config.resolve_command_bar(
            workspace_id.as_str(),
            *project_index,
        ),
        View::Workspaces => Vec::new(),
    }
}

/// The effect of running the selected command-bar item of `commands`: a
/// floating pane named after the command, or nothing when the selection is
/// past the bar.
pub fn execute_command_bar_item(state: &AppState, commands: &Vec<CommandBarItem>) -> (r: Effect)
    ensures
        runs_item(commands@, state.model().command_bar_selected, r),
{
    let sel = state.command_bar_selected();
    if sel < commands.len() {
        let cmd = &commands[sel];
        let mut pane_name = String::from_str("cmd-");
        let lower = to_lower(cmd.name.as_str());
        push_dashed(&mut pane_name, lower.as_str());
        Effect::RunCommand { pane_name, command: cmd.command.clone() }
    } else {
        Effect::Nothing
    }
}

/// The number of items of the current view, which bounds the selection.
pub fn get_max_index(state: &AppState, config: &Config, tree: Option<&FileTree>) -> (r: usize)
    requires
        config.wf(),
        tree matches Some(t) ==> t.wf(),
    ensures
        r == max_index_spec(
            *config,
            state.model(),
            match tree {
                Some(t) => Some(*t),
                None => None,
            },
        ),
{
    match state.current_view() {
        View::Workspaces => config.workspace.len(),
        View::Projects { workspace_id } => match config.workspace_by_id(workspace_id.as_str()) {
            Some(w) => w.projects.len(),
            None => 0,
        },
        View::FileBrowser { .. } => match tree {
            Some(t) => t.visible_count(),
            None => 0,
        },
    }
}

/// Handles Enter outside the command bar.
fn handle_enter(state: &mut AppState, config: &Config, tree: Option<&FileTree>) -> (r: Effect)
    requires
        config.wf(),
        tree matches Some(t) ==> t.wf(),
    ensures
        enter_step(
            *config,
            match tree {
                Some(t) => Some(*t),
                None => None,
            },
            old(state).model(),
            final(state).model(),
            r,
        ),
{
    let ghost m = state.model();
    match state.current_view() {
        View::Workspaces => {
            let view = WorkspacesView::new(config, state.selected_index());
            let ids = view.workspace_ids();
            let sel = state.selected_index();
            if sel < ids.len() {
                let id = String::from_str(ids[sel]);
                state.navigate_to_workspace(id);
            }
            assert(workspace_order(*config, texts(ids@)));
            Effect::Nothing
        },
        View::Projects { .. } => {
            let project_index = state.selected_index();
            let _ = state.navigate_to_project(project_index);
            Effect::Nothing
        },
        View::FileBrowser { workspace_id, project_index } => {
            let node = match tree {
                Some(t) => t.get_visible_node(state.selected_index()),
                None => None,
            };
            match node {
                Some(n) => if n.is_dir {
                    state.toggle_dir_expanded(n.path.clone());
                    Effect::Nothing
                } else {
                    match config.project_at(workspace_id.as_str(), *project_index) {
                        Some(p) => Effect::OpenFile {
                            cwd: p.path.clone(),
                            editor: config.global.editor.clone(),
                            file: n.path.clone(),
                        },
                        None => Effect::Nothing,
                    }
                },
                None => Effect::Nothing,
            }
        },
    }
}

/// Handles an action key: in a project context, looks the key up among
/// the actions in force and plans the launch of its command for the
/// project; at the workspace list, or for an unbound key or a missing
/// project, nothing happens.
pub fn handle_action(state: &AppState, config: &Config, panes: &PaneManager, key: char) -> (r: Effect)
    requires
        config.wf(),
    ensures
        action_effect(*config, state.model(), panes.main_used(), key, r),
{
    let (workspace_id, project_index) = match state.current_view() {
        View::Projects { workspace_id } => (workspace_id.as_str(), state.selected_index()),
        View::FileBrowser { workspace_id, project_index } => (workspace_id.as_str(), *project_index),
        View::Workspaces => {
            return Effect::Nothing;
        },
    };
    let actions = config.resolve_actions(workspace_id, project_index);
    let mut key_str = String::new();
    push_char(&mut key_str, key);
    assert(key_str@ =~= seq![key]);
    match actions.get(key_str.as_str()) {
        Some(action) => match config.project_at(workspace_id, project_index) {
            Some(project) => Effect::Launch(
                panes.plan_launch(project.path.as_str(), action.command.as_str(), true),
            ),
            None => Effect::Nothing,
        },
        None => Effect::Nothing,
    }
}

/// An action key at the workspace list changes nothing and launches
/// nothing, whatever the key and whatever the rest of the state.
pub proof fn lemma_action_at_workspaces_is_inert(
    config: Config,
    tree: Option<FileTree>,
    main_used: bool,
    m: AppModel,
    key: char,
    after: AppModel,
    e: Effect,
)
    requires
        m.view == View::Workspaces,
        !m.command_bar_visible,
        input_step(config, tree, main_used, m, InputEvent::Action(key), after, e),
    ensures
        after == m,
        e == Effect::Nothing,
{
}

} // verus!
