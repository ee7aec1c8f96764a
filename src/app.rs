//! Navigation state of the dashboard: the current view, the selection inside
//! it, the directories opened in the file browser and the command bar.

use vstd::prelude::*;
use vstd::view::View as _;

use crate::text::same_text;

verus! {

/// The level the dashboard shows: the workspace list, the projects of one
/// workspace, or the files of one project.
#[derive(Debug, Clone, PartialEq, Eq)]
pub enum View {
    /// List of workspaces.
    Workspaces,
    /// Projects within a specific workspace.
    Projects { workspace_id: String },
    /// File browser for a project, by its index within the workspace.
    FileBrowser { workspace_id: String, project_index: usize },
}

/// Why a requested transition was not made.
#[derive(Debug, Clone, Copy, PartialEq, Eq)]
pub enum NavigationError {
    /// A project can only be opened from the project list.
    NotInProjects,
}

/// The view one level up from `v`; the workspace list is its own parent.
pub open spec fn parent_view(v: View) -> View {
    match v {
        View::Workspaces => View::Workspaces,
        View::Projects { .. } => View::Workspaces,
        View::FileBrowser { workspace_id, .. } => View::Projects { workspace_id },
    }
}

/// The view reached from `v` by going back `n` times.
pub open spec fn back_times(v: View, n: nat) -> View
    decreases n,
{
    if n == 0 {
        v
    } else {
        back_times(parent_view(v), (n - 1) as nat)
    }
}

/// What the navigation state holds, as plain values.
pub struct AppModel {
    pub view: View,
    pub selected_index: usize,
    pub should_quit: bool,
    pub expanded_dirs: Set<Seq<char>>,
    pub command_bar_visible: bool,
    pub command_bar_selected: usize,
}

/// The state after going back one level from `m`: the selection starts over
/// and the command bar is closed.
pub open spec fn back_model(m: AppModel) -> AppModel {
    AppModel {
        view: parent_view(m.view),
        selected_index: 0,
        command_bar_visible: false,
        command_bar_selected: 0,
        ..m
    }
}

/// Application state for the dashboard.
#[derive(Debug, Clone)]
pub struct AppState {
    current_view: View,
    selected_index: usize,
    should_quit: bool,
    expanded_dirs: Vec<String>,
    command_bar_visible: bool,
    command_bar_selected: usize,
}

/// The paths in `dirs`, as a set of texts.
pub open spec fn path_set(dirs: Seq<String>) -> Set<Seq<char>> {
    Set::new(|p: Seq<char>| exists|i: int| 0 <= i < dirs.len() && dirs[i]@ == p)
}

impl AppState {
    /// The state as plain values.
    pub closed spec fn model(&self) -> AppModel {
        AppModel {
            view: self.current_view,
            selected_index: self.selected_index,
            should_quit: self.should_quit,
            expanded_dirs: path_set(self.expanded_dirs@),
            command_bar_visible: self.command_bar_visible,
            command_bar_selected: self.command_bar_selected,
        }
    }

    /// A state at the workspace list, with nothing selected but the first
    /// item, no directory open and the command bar hidden.
    pub fn new() -> (r: Self)
        ensures
            r.model() == (AppModel {
                view: View::Workspaces,
                selected_index: 0,
                should_quit: false,
                expanded_dirs: Set::empty(),
                command_bar_visible: false,
                command_bar_selected: 0,
            }),
    {
        let r = AppState {
            current_view: View::Workspaces,
            selected_index: 0,
            should_quit: false,
            expanded_dirs: Vec::new(),
            command_bar_visible: false,
            command_bar_selected: 0,
        };
        assert(path_set(r.expanded_dirs@) =~= Set::empty());
        r
    }

    /// The current view.
    pub fn current_view(&self) -> (r: &View)
        ensures
            *r == self.model().view,
    {
        &self.current_view
    }

    /// The selected index within the current view.
    pub fn selected_index(&self) -> (r: usize)
        ensures
            r == self.model().selected_index,
    {
        self.selected_index
    }

    /// Whether the dashboard should stop.
    pub fn should_quit(&self) -> (r: bool)
        ensures
            r == self.model().should_quit,
    {
        self.should_quit
    }

    /// Asks the dashboard to stop.
    pub fn quit(&mut self)
        ensures
            final(self).model() == (AppModel { should_quit: true, ..old(self).model() }),
    {
        self.should_quit = true;
    }

    /// Sets the selected index.
    pub fn set_selected_index(&mut self, index: usize)
        ensures
            final(self).model() == (AppModel { selected_index: index, ..old(self).model() }),
    {
        self.selected_index = index;
    }

    /// Opens the directory `path` in the file browser if it is closed, and
    /// closes it if it is open.
    pub fn toggle_dir_expanded(&mut self, path: String)
        ensures
            final(self).model() == (AppModel {
                expanded_dirs: if old(self).model().expanded_dirs.contains(path@) {
                    old(self).model().expanded_dirs.remove(path@)
                } else {
                    old(self).model().expanded_dirs.insert(path@)
                },
                ..old(self).model()
            }),
    {
        if self.is_dir_expanded(path.as_str()) {
            let mut kept: Vec<String> = Vec::new();
            let n = self.expanded_dirs.len();
            let mut i: usize = 0;
            while i < n
                invariant
                    n == self.expanded_dirs.len(),
                    i <= n,
                    self == old(self),
                    forall|k: int| 0 <= k < kept.len() ==> kept[k]@ != path@,
                    path_set(kept@) == path_set(self.expanded_dirs@.take(i as int)).remove(path@),
                decreases n - i,
            {
                let d = self.expanded_dirs[i].clone();
                let ghost before = kept@;
                proof {
                    assert(self.expanded_dirs@.take(i + 1) =~= self.expanded_dirs@.take(i as int).push(d));
                }
                proof {
                    lemma_path_set_push(self.expanded_dirs@.take(i as int), d);
                }
                if !same_text(d.as_str(), path.as_str()) {
                    kept.push(d);
                    proof {
                        lemma_path_set_push(before, d);
                    }
                }
                i = i + 1;
            }
            assert(self.expanded_dirs@.take(n as int) =~= self.expanded_dirs@);
            self.expanded_dirs = kept;
        } else {
            let ghost before = self.expanded_dirs@;
            self.expanded_dirs.push(path);
            proof {
                lemma_path_set_push(before, path);
            }
        }
        assert(self.model() == (AppModel {
            expanded_dirs: if old(self).model().expanded_dirs.contains(path@) {
                old(self).model().expanded_dirs.remove(path@)
            } else {
                old(self).model().expanded_dirs.insert(path@)
            },
            ..old(self).model()
        }));
    }

    /// Whether the directory `path` is open in the file browser.
    pub fn is_dir_expanded(&self, path: &str) -> (r: bool)
        ensures
            r == self.model().expanded_dirs.contains(path@),
    {
        let n = self.expanded_dirs.len();
        let mut i: usize = 0;
        while i < n
            invariant
                n == self.expanded_dirs.len(),
                i <= n,
                forall|k: int| 0 <= k < i ==> self.expanded_dirs[k]@ != path@,
            decreases n - i,
        {
            if same_text(self.expanded_dirs[i].as_str(), path) {
                return true;
            }
            i = i + 1;
        }
        false
    }

    /// The directories open in the file browser.
    pub fn expanded_dirs(&self) -> (r: &Vec<String>)
        ensures
            path_set(r@) == self.model().expanded_dirs,
    {
        &self.expanded_dirs
    }

    /// Shows the command bar if it is hidden and hides it if it is shown;
    /// either way its selection starts over at the first command.
    pub fn toggle_command_bar(&mut self)
        ensures
            final(self).model() == (AppModel {
                command_bar_visible: !old(self).model().command_bar_visible,
                command_bar_selected: 0,
                ..old(self).model()
            }),
    {
        self.command_bar_visible = !self.command_bar_visible;
        self.command_bar_selected = 0;
    }

    /// Whether the command bar is shown.
    pub fn is_command_bar_visible(&self) -> (r: bool)
        ensures
            r == self.model().command_bar_visible,
    {
        self.command_bar_visible
    }

    /// Hides the command bar and resets its selection.
    pub fn hide_command_bar(&mut self)
        ensures
            final(self).model() == (AppModel {
                command_bar_visible: false,
                command_bar_selected: 0,
                ..old(self).model()
            }),
    {
        self.command_bar_visible = false;
        self.command_bar_selected = 0;
    }

    /// The index of the selected command in the command bar.
    pub fn command_bar_selected(&self) -> (r: usize)
        ensures
            r == self.model().command_bar_selected,
    {
        self.command_bar_selected
    }

    /// Moves the command-bar selection one to the right, from the last
    /// command back to the first, among `max` commands.
    pub fn command_bar_select_next(&mut self, max: usize)
        ensures
            final(self).model() == (AppModel {
                command_bar_selected: if max > 0 {
                    ((old(self).model().command_bar_selected + 1) % (max as int)) as usize
                } else {
                    old(self).model().command_bar_selected
                },
                ..old(self).model()
            }),
    {
        if max > 0 {
            let s = self.command_bar_selected % max;
            proof {
                vstd::arithmetic::div_mod::lemma_add_mod_noop_right(1, self.command_bar_selected as int, max as int);
                if s + 1 == max {
                    vstd::arithmetic::div_mod::lemma_mod_self_0(max as int);
                } else {
                    vstd::arithmetic::div_mod::lemma_small_mod((s + 1) as nat, max as nat);
                }
            }
            self.command_bar_selected = if s + 1 == max { 0 } else { s + 1 };
        }
    }

    /// Moves the command-bar selection one to the left, from the first
    /// command round to the last, among `max` commands.
    pub fn command_bar_select_prev(&mut self, max: usize)
        ensures
            final(self).model() == (AppModel {
                command_bar_selected: if max == 0 {
                    old(self).model().command_bar_selected
                } else if old(self).model().command_bar_selected == 0 {
                    (max - 1) as usize
                } else {
                    (old(self).model().command_bar_selected - 1) as usize
                },
                ..old(self).model()
            }),
    {
        if max > 0 {
            if self.command_bar_selected == 0 {
                self.command_bar_selected = max - 1;
            } else {
                self.command_bar_selected = self.command_bar_selected - 1;
            }
        }
    }

    /// Opens the project list of the workspace `workspace_id`.
    pub fn navigate_to_workspace(&mut self, workspace_id: String)
        ensures
            final(self).model() == (AppModel {
                view: View::Projects { workspace_id },
                selected_index: 0,
                command_bar_visible: false,
                command_bar_selected: 0,
                ..old(self).model()
            }),
    {
        self.current_view = View::Projects { workspace_id };
        self.selected_index = 0;
        self.command_bar_visible = false;
        self.command_bar_selected = 0;
    }

    /// Opens the file browser of the project at `project_index` of the
    /// workspace whose project list is shown. From any other view the state
    /// is left as it is and the transition is refused.
    pub fn navigate_to_project(&mut self, project_index: usize) -> (r: Result<(), NavigationError>)
        ensures
            match old(self).model().view {
                View::Projects { workspace_id } => r is Ok && final(self).model() == (AppModel {
                    view: View::FileBrowser { workspace_id, project_index },
                    selected_index: 0,
                    command_bar_visible: false,
                    command_bar_selected: 0,
                    ..old(self).model()
                }),
                _ => r == Err::<(), NavigationError>(NavigationError::NotInProjects)
                    && final(self).model() == old(self).model(),
            },
    {
        let workspace_id = match &self.current_view {
            View::Projects { workspace_id } => workspace_id.clone(),
            _ => {
                return Err(NavigationError::NotInProjects);
            },
        };
        self.current_view = View::FileBrowser { workspace_id, project_index };
        self.selected_index = 0;
        self.command_bar_visible = false;
        self.command_bar_selected = 0;
        Ok(())
    }

    /// Goes back one level: file browser to project list, project list to
    /// workspace list; at the workspace list the view stays. The selection
    /// starts over and the command bar is closed.
    pub fn navigate_back(&mut self)
        ensures
            final(self).model() == back_model(old(self).model()),
    {
        let next = match &self.current_view {
            View::Workspaces => View::Workspaces,
            View::Projects { .. } => View::Workspaces,
            View::FileBrowser { workspace_id, .. } => View::Projects {
                workspace_id: workspace_id.clone(),
            },
        };
        self.current_view = next;
        self.selected_index = 0;
        self.command_bar_visible = false;
        self.command_bar_selected = 0;
    }
}

/// Adding one path to a list adds its text to the set of texts.
proof fn lemma_path_set_push(s: Seq<String>, d: String)
    ensures
        path_set(s.push(d)) == path_set(s).insert(d@),
{
    let t = s.push(d);
    assert forall|p: Seq<char>| path_set(t).contains(p) <==> path_set(s).insert(d@).contains(p) by {
        if path_set(s).contains(p) {
            let i = choose|i: int| 0 <= i < s.len() && s[i]@ == p;
            assert(t[i]@ == p);
        }
        if p == d@ {
            assert(t[s.len() as int]@ == p);
        }
        if path_set(t).contains(p) {
            let i = choose|i: int| 0 <= i < t.len() && t[i]@ == p;
            if i < s.len() {
                assert(s[i]@ == p);
            }
        }
    }
    assert(path_set(t) =~= path_set(s).insert(d@));
}

/// Going back repeatedly ends at the workspace list: after two steps from
/// any view the workspace list is reached, and every further step stays there.
pub proof fn lemma_back_reaches_workspaces(v: View, n: nat)
    requires
        n >= 2,
    ensures
        back_times(v, n) == View::Workspaces,
        parent_view(View::Workspaces) == View::Workspaces,
    decreases n,
{
    if n > 2 {
        lemma_back_reaches_workspaces(parent_view(v), (n - 1) as nat);
    } else {
        assert(back_times(v, 2) == back_times(parent_view(v), 1));
        assert(back_times(parent_view(v), 1) == back_times(parent_view(parent_view(v)), 0));
    }
}

/// Once the workspace list is reached, going back changes nothing more: a
/// third step leaves the whole state as the second left it.
pub proof fn lemma_back_idempotent(m: AppModel)
    ensures
        back_model(back_model(m)).view == View::Workspaces,
        back_model(back_model(back_model(m))) == back_model(back_model(m)),
{
}

} // verus!
