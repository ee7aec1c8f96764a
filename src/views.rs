//! What each screen of the dashboard shows, apart from drawing: the command
//! bar, the workspace list, a workspace's projects and a project's files.

use vstd::prelude::*;
use vstd::string::*;

use crate::config::{
    entry_pairs, keys_unique, pairs_map, sorted_actions, Action, CommandBarItem, Config, Project, Workspace,
};
use crate::file_tree::{node_at, toggled_at, visible, EntryInfo, FileNode, FileTree};
use crate::ordering::{is_arrangement, key_at, key_le, sort_order, text_le};

verus! {

/// A horizontal bar of commands, one of them selected.
pub struct CommandBar<'a> {
    commands: &'a [CommandBarItem],
    selected: usize,
}

impl<'a> CommandBar<'a> {
    /// The commands of the bar.
    pub closed spec fn items(&self) -> Seq<CommandBarItem> {
        self.commands@
    }

    /// The selected position.
    pub closed spec fn selection(&self) -> usize {
        self.selected
    }

    /// A bar over `commands` with `selected` selected.
    pub fn new(commands: &'a [CommandBarItem], selected: usize) -> (r: Self)
        ensures
            r.items() == commands@,
            r.selection() == selected,
    {
        CommandBar { commands, selected }
    }

    /// The number of commands.
    pub fn len(&self) -> (r: usize)
        ensures
            r == self.items().len(),
    {
        self.commands.len()
    }

    /// Whether the bar has no command.
    pub fn is_empty(&self) -> (r: bool)
        ensures
            r == (self.items().len() == 0),
    {
        self.commands.len() == 0
    }

    /// The selected command, if the selection is within the bar.
    pub fn selected_command(&self) -> (r: Option<&CommandBarItem>)
        ensures
            match r {
                Some(c) => self.selection() < self.items().len() && *c == self.items()[self.selection() as int],
                None => self.selection() >= self.items().len(),
            },
    {
        if self.selected < self.commands.len() {
            Some(&self.commands[self.selected])
        } else {
            None
        }
    }
}

/// Whether `ids` lists the workspace identifiers of `config` each once,
/// in text order.
pub open spec fn workspace_order(config: Config, ids: Seq<Seq<char>>) -> bool {
    let ps = config.workspace.pairs();
    &&& ids.len() == ps.len()
    &&& exists|order: Seq<usize>|
        is_arrangement(order, ps.len()) && forall|k: int| 0 <= k < ids.len() ==> #[trigger] ids[k] == ps[order[k] as int].0
    &&& forall|k: int| 0 <= k < ids.len() - 1 ==> text_le(#[trigger] ids[k], ids[k + 1])
}

/// The texts of a list of text slices.
pub open spec fn texts(s: Seq<&str>) -> Seq<Seq<char>> {
    s.map_values(|x: &str| x@)
}

/// The workspace list.
pub struct WorkspacesView<'a> {
    config: &'a Config,
    selected: usize,
}

impl<'a> WorkspacesView<'a> {
    /// The configuration shown.
    pub closed spec fn config_shown(&self) -> Config {
        *self.config
    }

    /// A list of the workspaces of `config`, with `selected` selected.
    pub fn new(config: &'a Config, selected: usize) -> (r: Self)
        ensures
            r.config_shown() == *config,
    {
        WorkspacesView { config, selected }
    }

    /// The workspace identifiers, in text order.
    pub fn workspace_ids(&self) -> (r: Vec<&'a str>)
        ensures
            workspace_order(self.config_shown(), texts(r@)),
    {
        let t = &self.config.workspace;
        let n = t.len();
        let mut keys: Vec<String> = Vec::new();
        let mut first: Vec<bool> = Vec::new();
        let mut i: usize = 0;
        while i < n
            invariant
                n == t.pairs().len(),
                i <= n,
                keys.len() == i,
                first.len() == i,
                forall|j: int| 0 <= j < i ==> (#[trigger] keys@[j])@ == t.pairs()[j].0,
                forall|j: int| 0 <= j < i ==> !(#[trigger] first@[j]),
            decreases n - i,
        {
            let e = t.entry(i);
            let ghost kb = keys@;
            let ghost fb = first@;
            keys.push(String::from_str(e.0));
            first.push(false);
            assert forall|j: int| 0 <= j < i + 1 implies (#[trigger] keys@[j])@ == t.pairs()[j].0 by {
                if j < i {
                    assert(keys@[j] == kb[j]);
                }
            }
            assert forall|j: int| 0 <= j < i + 1 implies !(#[trigger] first@[j]) by {
                if j < i {
                    assert(first@[j] == fb[j]);
                }
            }
            i = i + 1;
        }
        let order = sort_order(&keys, &first);
        let mut r: Vec<&'a str> = Vec::new();
        let mut k: usize = 0;
        while k < n
            invariant
                t == &self.config.workspace,
                n == t.pairs().len(),
                n == order.len(),
                is_arrangement(order@, n as nat),
                k <= n,
                r.len() == k,
                forall|j: int| 0 <= j < k ==> (#[trigger] r@[j])@ == t.pairs()[order@[j] as int].0,
            decreases n - k,
        {
            let e = self.config.workspace.entry(order[k]);
            let ghost rb = r@;
            r.push(e.0);
            assert forall|j: int| 0 <= j < k + 1 implies (#[trigger] r@[j])@ == t.pairs()[order@[j] as int].0 by {
                if j < k {
                    assert(r@[j] == rb[j]);
                }
            }
            k = k + 1;
        }
        let ghost ids = texts(r@);
        assert(forall|j: int| 0 <= j < n ==> #[trigger] ids[j] == t.pairs()[order@[j] as int].0);
        assert forall|j: int| 0 <= j < ids.len() - 1 implies text_le(#[trigger] ids[j], ids[j + 1]) by {
            assert(key_le(key_at(keys@, first@, order@[j] as int), key_at(keys@, first@, order@[j + 1] as int)));
        }
        r
    }

    /// The number of workspaces.
    pub fn len(&self) -> (r: usize)
        ensures
            r == self.config_shown().workspace.pairs().len(),
    {
        self.config.workspace.len()
    }

    /// Whether there is no workspace.
    pub fn is_empty(&self) -> (r: bool)
        ensures
            r == (self.config_shown().workspace.pairs().len() == 0),
    {
        self.config.workspace.is_empty()
    }
}

/// Whether `r` lists the entries of the map `m` each once, by key.
pub open spec fn listed_by_key(r: Seq<(String, Action)>, m: Map<Seq<char>, Action>) -> bool {
    &&& keys_unique(entry_pairs(r))
    &&& pairs_map(entry_pairs(r)) == m
    &&& forall|k: int| 0 <= k < r.len() - 1 ==> text_le((#[trigger] r[k]).0@, r[k + 1].0@)
}

/// The icons of the entries, in order, for the entries that have one.
pub open spec fn icons_of(ps: Seq<(String, Action)>) -> Seq<Seq<char>>
    decreases ps.len(),
{
    if ps.len() == 0 {
        Seq::empty()
    } else {
        icons_of(ps.drop_last()) + match ps.last().1.icon {
            Some(i) => seq![i@],
            None => Seq::empty(),
        }
    }
}

/// The texts joined with one space between neighbours.
pub open spec fn joined(ws: Seq<Seq<char>>) -> Seq<char>
    decreases ws.len(),
{
    if ws.len() == 0 {
        Seq::empty()
    } else if ws.len() == 1 {
        ws[0]
    } else {
        joined(ws.drop_last()) + " "@ + ws.last()
    }
}

/// The projects of one workspace.
pub struct ProjectsView<'a> {
    config: &'a Config,
    workspace_id: &'a str,
    selected: usize,
}

impl<'a> ProjectsView<'a> {
    /// The configuration shown.
    pub closed spec fn config_shown(&self) -> Config {
        *self.config
    }

    /// The identifier of the workspace shown.
    pub closed spec fn workspace_shown(&self) -> Seq<char> {
        self.workspace_id@
    }

    /// The selected project.
    pub closed spec fn selection(&self) -> usize {
        self.selected
    }

    /// The projects of the workspace `workspace_id`, with `selected`
    /// selected.
    pub fn new(config: &'a Config, workspace_id: &'a str, selected: usize) -> (r: Self)
        ensures
            r.config_shown() == *config,
            r.workspace_shown() == workspace_id@,
            r.selection() == selected,
    {
        ProjectsView { config, workspace_id, selected }
    }

    /// The workspace shown, if the configuration has it.
    pub fn workspace(&self) -> (r: Option<&Workspace>)
        requires
            self.config_shown().wf(),
        ensures
            match r {
                Some(w) => self.config_shown().workspace_spec(self.workspace_shown()) == Some(*w),
                None => self.config_shown().workspace_spec(self.workspace_shown()) is None,
            },
    {
        self.config.workspace_by_id(self.workspace_id)
    }

    /// The actions in force for the selected project, by key.
    pub fn resolved_actions(&self) -> (r: Vec<(String, Action)>)
        requires
            self.config_shown().wf(),
        ensures
            listed_by_key(r@, self.config_shown().actions_spec(self.workspace_shown(), self.selection() as int)),
    {
        let actions = self.config.resolve_actions(self.workspace_id, self.selected);
        sorted_actions(&actions)
    }

    /// The number of projects; none when the workspace is missing.
    pub fn len(&self) -> (r: usize)
        requires
            self.config_shown().wf(),
        ensures
            r == match self.config_shown().workspace_spec(self.workspace_shown()) {
                Some(w) => w.projects.len(),
                None => 0,
            },
    {
        match self.workspace() {
            Some(w) => w.projects.len(),
            None => 0,
        }
    }

    /// Whether there is no project to show.
    pub fn is_empty(&self) -> (r: bool)
        requires
            self.config_shown().wf(),
        ensures
            r == (match self.config_shown().workspace_spec(self.workspace_shown()) {
                Some(w) => w.projects.len(),
                None => 0,
            } == 0),
    {
        self.len() == 0
    }

    /// The icons of the actions in force for the project at
    /// `project_index`, taken by key and joined with spaces.
    pub fn collect_action_icons(&self, project_index: usize) -> (r: String)
        requires
            self.config_shown().wf(),
        ensures
            exists|ps: Seq<(String, Action)>|
                listed_by_key(ps, self.config_shown().actions_spec(self.workspace_shown(), project_index as int))
                    && r@ == joined(icons_of(ps)),
    {
        let actions = self.config.resolve_actions(self.workspace_id, project_index);
        let sorted = sorted_actions(&actions);
        let r = join_icons(&sorted);
        assert(listed_by_key(sorted@, self.config_shown().actions_spec(self.workspace_shown(), project_index as int)));
        r
    }
}

/// The icons of the entries that have one, joined with spaces.
fn join_icons(ps: &Vec<(String, Action)>) -> (r: String)
    ensures
        r@ == joined(icons_of(ps@)),
{
    let mut r = String::new();
    let n = ps.len();
    let mut i: usize = 0;
    let mut any = false;
    proof {
        reveal_strlit(" ");
    }
    assert(ps@.take(0) =~= Seq::<(String, Action)>::empty());
    while i < n
        invariant
            n == ps.len(),
            i <= n,
            r@ == joined(icons_of(ps@.take(i as int))),
            any == (icons_of(ps@.take(i as int)).len() > 0),
            " "@ == seq![' '],
        decreases n - i,
    {
        let ghost before = icons_of(ps@.take(i as int));
        assert(ps@.take(i + 1).drop_last() =~= ps@.take(i as int));
        match &ps[i].1.icon {
            Some(icon) => {
                if any {
                    r.append(" ");
                }
                r.append(icon.as_str());
                any = true;
                let ghost after = before + seq![icon@];
                assert(after.drop_last() =~= before);
                proof {
                    if before.len() == 0 {
                        assert(r@ =~= joined(after));
                    }
                }
            },
            None => {
                assert(before + Seq::<Seq<char>>::empty() =~= before);
            },
        }
        i = i + 1;
    }
    assert(ps@.take(n as int) =~= ps@);
    r
}

/// The files of one project.
pub struct FileBrowserView<'a> {
    config: &'a Config,
    workspace_id: &'a str,
    project_index: usize,
    selected: usize,
    file_tree: Option<FileTree>,
}

impl<'a> FileBrowserView<'a> {
    /// The configuration shown.
    pub closed spec fn config_shown(&self) -> Config {
        *self.config
    }

    /// The identifier of the workspace of the project shown.
    pub closed spec fn workspace_shown(&self) -> Seq<char> {
        self.workspace_id@
    }

    /// The index of the project shown.
    pub closed spec fn project_shown(&self) -> usize {
        self.project_index
    }

    /// The selected node.
    pub closed spec fn selection(&self) -> usize {
        self.selected
    }

    /// The file tree of the project, if it could be read.
    pub closed spec fn tree(&self) -> Option<FileTree> {
        self.file_tree
    }

    /// Whether the tree, if any, keeps its list of shown nodes.
    pub open spec fn wf(&self) -> bool {
        self.tree() matches Some(t) ==> t.wf()
    }

    /// The node selected in the tree, as the tree shows it.
    pub open spec fn selected_node(&self) -> Option<FileNode> {
        match self.tree() {
            Some(t) => if self.selection() < visible(t.root).len() {
                node_at(t.root, visible(t.root)[self.selection() as int])
            } else {
                None
            },
            None => None,
        }
    }

    /// The files of the project at `project_index` of `workspace_id`, with
    /// `selected` selected; `file_tree` is the project's tree as read from
    /// disk, if it could be read.
    pub fn new(
        config: &'a Config,
        workspace_id: &'a str,
        project_index: usize,
        selected: usize,
        file_tree: Option<FileTree>,
    ) -> (r: Self)
        ensures
            r.config_shown() == *config,
            r.workspace_shown() == workspace_id@,
            r.project_shown() == project_index,
            r.selection() == selected,
            r.tree() == file_tree,
    {
        FileBrowserView { config, workspace_id, project_index, selected, file_tree }
    }

    /// The project shown, if the configuration has it.
    pub fn project(&self) -> (r: Option<&Project>)
        requires
            self.config_shown().wf(),
        ensures
            match r {
                Some(p) => self.config_shown().project_spec(self.workspace_shown(), self.project_shown() as int)
                    == Some(*p),
                None => self.config_shown().project_spec(self.workspace_shown(), self.project_shown() as int) is None,
            },
    {
        self.config.project_at(self.workspace_id, self.project_index)
    }

    /// The actions in force for the project, by key.
    pub fn resolved_actions(&self) -> (r: Vec<(String, Action)>)
        requires
            self.config_shown().wf(),
        ensures
            listed_by_key(r@, self.config_shown().actions_spec(self.workspace_shown(), self.project_shown() as int)),
    {
        let actions = self.config.resolve_actions(self.workspace_id, self.project_index);
        sorted_actions(&actions)
    }

    /// The number of shown nodes; none without a tree.
    pub fn visible_count(&self) -> (r: usize)
        requires
            self.wf(),
        ensures
            r == match self.tree() {
                Some(t) => visible(t.root).len(),
                None => 0,
            },
    {
        match &self.file_tree {
            Some(t) => t.visible_count(),
            None => 0,
        }
    }

    /// Opens or closes the selected directory; `listing` holds the entries
    /// of its directory, read when it first opens.
    pub fn toggle_selected(&mut self, listing: &Vec<EntryInfo>)
        requires
            old(self).wf(),
        ensures
            final(self).wf(),
            final(self).config_shown() == old(self).config_shown(),
            final(self).workspace_shown() == old(self).workspace_shown(),
            final(self).project_shown() == old(self).project_shown(),
            final(self).selection() == old(self).selection(),
            old(self).tree() is None ==> final(self).tree() is None,
            old(self).tree() matches Some(t0) ==> final(self).tree() matches Some(t1) && if old(self).selection()
                < visible(t0.root).len() {
                toggled_at(t0.root, visible(t0.root)[old(self).selection() as int], listing@, t1.root)
            } else {
                t1.root == t0.root
            },
    {
        match &mut self.file_tree {
            Some(t) => t.toggle_at(self.selected, listing),
            None => {},
        }
    }

    /// Whether the selected node is a file.
    pub fn selected_is_file(&self) -> (r: bool)
        requires
            self.wf(),
        ensures
            r == (self.selected_node() matches Some(n) && !n.is_dir),
    {
        match &self.file_tree {
            Some(t) => match t.get_visible_node(self.selected) {
                Some(n) => !n.is_dir,
                None => false,
            },
            None => false,
        }
    }

    /// The path of the selected node.
    pub fn selected_path(&self) -> (r: Option<String>)
        requires
            self.wf(),
        ensures
            match r {
                Some(p) => self.selected_node() matches Some(n) && p@ == n.path@,
                None => self.selected_node() is None,
            },
    {
        match &self.file_tree {
            Some(t) => match t.get_visible_node(self.selected) {
                Some(n) => Some(n.path.clone()),
                None => None,
            },
            None => None,
        }
    }
}

} // verus!
