//! Configuration model: global settings, workspaces and their projects, the
//! actions and command-bar items bound at each of those three tiers, and the
//! rules by which the tiers are checked and merged.

use vstd::prelude::*;
use vstd::string::*;

use crate::ordering::{is_arrangement, key_at, key_le, sort_order, text_le};
use crate::text::{join, join_path, same_text};

verus! {

/// A command bound to a single-character key.
#[derive(Debug, Clone, PartialEq, Eq)]
pub struct Action {
    pub name: String,
    pub command: String,
    pub icon: Option<String>,
}

/// A command chosen by its position in the command bar; `key` decides which
/// tier's item wins when two tiers define the same key.
#[derive(Debug, Clone, PartialEq, Eq)]
pub struct CommandBarItem {
    pub key: String,
    pub name: String,
    pub command: String,
    pub icon: Option<String>,
}

/// A copy of an optional text.
pub fn copy_text_option(o: &Option<String>) -> (r: Option<String>)
    ensures
        r == *o,
{
    match o {
        Some(s) => Some(s.clone()),
        None => None,
    }
}

impl Action {
    /// A copy of this action.
    pub fn duplicate(&self) -> (r: Action)
        ensures
            r == *self,
    {
        Action { name: self.name.clone(), command: self.command.clone(), icon: copy_text_option(&self.icon) }
    }
}

impl CommandBarItem {
    /// A copy of this item.
    pub fn duplicate(&self) -> (r: CommandBarItem)
        ensures
            r == *self,
    {
        CommandBarItem {
            key: self.key.clone(),
            name: self.name.clone(),
            command: self.command.clone(),
            icon: copy_text_option(&self.icon),
        }
    }
}

/// Whether no two entries of `ps` have the same key.
pub open spec fn keys_unique<V>(ps: Seq<(Seq<char>, V)>) -> bool {
    forall|i: int, j: int| 0 <= i < ps.len() && 0 <= j < ps.len() && i != j ==> ps[i].0 != ps[j].0
}

/// Whether some entry of `ps` has the key `k`.
pub open spec fn has_key<V>(ps: Seq<(Seq<char>, V)>, k: Seq<char>) -> bool {
    exists|i: int| 0 <= i < ps.len() && ps[i].0 == k
}

/// The entries of `ps` as a map from key to value.
pub open spec fn pairs_map<V>(ps: Seq<(Seq<char>, V)>) -> Map<Seq<char>, V> {
    Map::new(
        |k: Seq<char>| has_key(ps, k),
        |k: Seq<char>| ps[choose|i: int| 0 <= i < ps.len() && ps[i].0 == k].1,
    )
}

/// A table keyed by text. Each key appears once, and the entries keep the
/// order in which their keys were first inserted.
#[derive(Debug, Clone, PartialEq, Eq)]
pub struct KeyedMap<V> {
    entries: Vec<(String, V)>,
}

impl<V> KeyedMap<V> {
    /// The entries, with each key as its text.
    pub closed spec fn pairs(&self) -> Seq<(Seq<char>, V)> {
        self.entries@.map_values(|e: (String, V)| (e.0@, e.1))
    }

    /// Each key appears once.
    pub open spec fn wf(&self) -> bool {
        keys_unique(self.pairs())
    }

    /// The table as a map.
    pub open spec fn as_map(&self) -> Map<Seq<char>, V> {
        pairs_map(self.pairs())
    }

    /// An empty table.
    pub fn new() -> (r: Self)
        ensures
            r.wf(),
            r.pairs() == Seq::<(Seq<char>, V)>::empty(),
    {
        let r = KeyedMap { entries: Vec::new() };
        assert(r.pairs() =~= Seq::<(Seq<char>, V)>::empty());
        r
    }

    /// The number of entries.
    pub fn len(&self) -> (r: usize)
        ensures
            r == self.pairs().len(),
    {
        self.entries.len()
    }

    /// Whether the table has no entry.
    pub fn is_empty(&self) -> (r: bool)
        ensures
            r == (self.pairs().len() == 0),
    {
        self.entries.len() == 0
    }

    /// The position of the entry with key `key`, if there is one.
    pub fn position(&self, key: &str) -> (r: Option<usize>)
        ensures
            match r {
                Some(i) => i < self.pairs().len() && self.pairs()[i as int].0 == key@,
                None => !has_key(self.pairs(), key@),
            },
    {
        let n = self.entries.len();
        let mut i: usize = 0;
        while i < n
            invariant
                n == self.entries.len(),
                n == self.pairs().len(),
                i <= n,
                forall|k: int| 0 <= k < i ==> self.pairs()[k].0 != key@,
            decreases n - i,
        {
            if same_text(self.entries[i].0.as_str(), key) {
                return Some(i);
            }
            i = i + 1;
        }
        None
    }

    /// The value stored under `key`.
    pub fn get(&self, key: &str) -> (r: Option<&V>)
        requires
            self.wf(),
        ensures
            match r {
                Some(v) => self.as_map().contains_key(key@) && *v == self.as_map()[key@],
                None => !self.as_map().contains_key(key@),
            },
    {
        match self.position(key) {
            Some(i) => {
                proof {
                    lemma_unique_lookup(self.pairs(), i as int);
                }
                Some(&self.entries[i].1)
            },
            None => None,
        }
    }

    /// The entry at position `i`: its key and its value.
    pub fn entry(&self, i: usize) -> (r: (&str, &V))
        requires
            i < self.pairs().len(),
        ensures
            r.0@ == self.pairs()[i as int].0,
            *r.1 == self.pairs()[i as int].1,
    {
        (self.entries[i].0.as_str(), &self.entries[i].1)
    }

    /// Stores `value` under `key`: an entry with that key has its value
    /// replaced where it stands; otherwise the entry is added at the end.
    pub fn insert(&mut self, key: String, value: V)
        requires
            old(self).wf(),
        ensures
            final(self).wf(),
            final(self).as_map() == old(self).as_map().insert(key@, value),
            match old(self).position_spec(key@) {
                Some(i) => final(self).pairs() == old(self).pairs().update(i, (key@, value)),
                None => final(self).pairs() == old(self).pairs().push((key@, value)),
            },
    {
        let ghost old_pairs = self.pairs();
        match self.position(key.as_str()) {
            Some(i) => {
                proof {
                    lemma_unique_lookup(old_pairs, i as int);
                }
                self.entries.set(i, (key, value));
                assert(self.pairs() =~= old_pairs.update(i as int, (key@, value)));
                proof {
                    lemma_update_map(old_pairs, i as int, key@, value);
                }
            },
            None => {
                self.entries.push((key, value));
                assert(self.pairs() =~= old_pairs.push((key@, value)));
                proof {
                    lemma_push_map(old_pairs, key@, value);
                }
            },
        }
    }

    /// Removes the entry with key `key`, if there is one; the other entries
    /// keep their order.
    pub fn remove(&mut self, key: &str)
        requires
            old(self).wf(),
        ensures
            final(self).wf(),
            final(self).as_map() == old(self).as_map().remove(key@),
    {
        let ghost old_pairs = self.pairs();
        match self.position(key) {
            Some(i) => {
                self.entries.remove(i);
                assert(self.pairs() =~= old_pairs.remove(i as int));
                proof {
                    lemma_remove_map(old_pairs, i as int);
                }
            },
            None => {
                assert(self.as_map() =~= old(self).as_map().remove(key@));
            },
        }
    }

    /// The position of the entry with key `k`, if there is one.
    pub open spec fn position_spec(&self, k: Seq<char>) -> Option<int> {
        if has_key(self.pairs(), k) {
            Some(choose|i: int| 0 <= i < self.pairs().len() && self.pairs()[i].0 == k)
        } else {
            None
        }
    }
}

/// In a table with unique keys, the entry found for a key is the map's value.
pub proof fn lemma_unique_lookup<V>(ps: Seq<(Seq<char>, V)>, i: int)
    requires
        keys_unique(ps),
        0 <= i < ps.len(),
    ensures
        pairs_map(ps).contains_key(ps[i].0),
        pairs_map(ps)[ps[i].0] == ps[i].1,
        (choose|j: int| 0 <= j < ps.len() && ps[j].0 == ps[i].0) == i,
{
    let k = ps[i].0;
    assert(has_key(ps, k));
    let j = choose|j: int| 0 <= j < ps.len() && ps[j].0 == k;
    assert(j == i);
}

proof fn lemma_update_map<V>(ps: Seq<(Seq<char>, V)>, i: int, k: Seq<char>, v: V)
    requires
        keys_unique(ps),
        0 <= i < ps.len(),
        ps[i].0 == k,
    ensures
        keys_unique(ps.update(i, (k, v))),
        pairs_map(ps.update(i, (k, v))) == pairs_map(ps).insert(k, v),
{
    let qs = ps.update(i, (k, v));
    assert forall|x: Seq<char>| has_key(qs, x) <==> (has_key(ps, x) || x == k) by {
        if has_key(ps, x) {
            let j = choose|j: int| 0 <= j < ps.len() && ps[j].0 == x;
            assert(qs[j].0 == x);
        }
        if has_key(qs, x) {
            let j = choose|j: int| 0 <= j < qs.len() && qs[j].0 == x;
            assert(ps[j].0 == x);
        }
        if x == k {
            assert(qs[i].0 == x);
        }
    }
    assert forall|x: Seq<char>| #[trigger] pairs_map(qs).contains_key(x) implies pairs_map(qs)[x]
        == pairs_map(ps).insert(k, v)[x] by {
        let j = choose|j: int| 0 <= j < qs.len() && qs[j].0 == x;
        if x == k {
            assert(j == i);
        } else {
            lemma_unique_lookup(ps, j);
        }
    }
    assert(pairs_map(qs) =~= pairs_map(ps).insert(k, v));
}

proof fn lemma_remove_map<V>(ps: Seq<(Seq<char>, V)>, i: int)
    requires
        keys_unique(ps),
        0 <= i < ps.len(),
    ensures
        keys_unique(ps.remove(i)),
        pairs_map(ps.remove(i)) == pairs_map(ps).remove(ps[i].0),
{
    let qs = ps.remove(i);
    let k = ps[i].0;
    assert forall|a: int, b: int| 0 <= a < qs.len() && 0 <= b < qs.len() && a != b implies qs[a].0 != qs[b].0 by {
        let aa = if a < i { a } else { a + 1 };
        let bb = if b < i { b } else { b + 1 };
        assert(qs[a] == ps[aa] && qs[b] == ps[bb]);
    }
    assert forall|x: Seq<char>| has_key(qs, x) <==> (has_key(ps, x) && x != k) by {
        if has_key(qs, x) {
            let j = choose|j: int| 0 <= j < qs.len() && qs[j].0 == x;
            let jj = if j < i { j } else { j + 1 };
            assert(ps[jj].0 == x);
        }
        if has_key(ps, x) && x != k {
            let j = choose|j: int| 0 <= j < ps.len() && ps[j].0 == x;
            if j < i {
                assert(qs[j].0 == x);
            } else {
                assert(qs[j - 1].0 == x);
            }
        }
    }
    assert forall|x: Seq<char>| #[trigger] pairs_map(qs).contains_key(x) implies pairs_map(qs)[x]
        == pairs_map(ps).remove(k)[x] by {
        let j = choose|j: int| 0 <= j < qs.len() && qs[j].0 == x;
        lemma_unique_lookup(qs, j);
        let jj = if j < i { j } else { j + 1 };
        assert(qs[j] == ps[jj]);
        lemma_unique_lookup(ps, jj);
    }
    assert(pairs_map(qs) =~= pairs_map(ps).remove(k));
}

proof fn lemma_push_map<V>(ps: Seq<(Seq<char>, V)>, k: Seq<char>, v: V)
    requires
        keys_unique(ps),
        !has_key(ps, k),
    ensures
        keys_unique(ps.push((k, v))),
        pairs_map(ps.push((k, v))) == pairs_map(ps).insert(k, v),
{
    let qs = ps.push((k, v));
    assert forall|x: Seq<char>| has_key(qs, x) <==> (has_key(ps, x) || x == k) by {
        if has_key(ps, x) {
            let j = choose|j: int| 0 <= j < ps.len() && ps[j].0 == x;
            assert(qs[j].0 == x);
        }
        if has_key(qs, x) {
            let j = choose|j: int| 0 <= j < qs.len() && qs[j].0 == x;
            if j < ps.len() {
                assert(ps[j].0 == x);
            }
        }
        if x == k {
            assert(qs[ps.len() as int].0 == x);
        }
    }
    assert forall|x: Seq<char>| #[trigger] pairs_map(qs).contains_key(x) implies pairs_map(qs)[x]
        == pairs_map(ps).insert(k, v)[x] by {
        let j = choose|j: int| 0 <= j < qs.len() && qs[j].0 == x;
        if x == k {
            assert(j == ps.len());
        } else {
            lemma_unique_lookup(ps, j);
        }
    }
    assert(pairs_map(qs) =~= pairs_map(ps).insert(k, v));
}


/// How much repository information the views show.
#[derive(Debug, Clone, Copy, PartialEq, Eq)]
pub enum GitInfoLevel {
    Minimal,
    Standard,
    Detailed,
}

/// Settings of the web client.
#[derive(Debug, Clone, PartialEq, Eq)]
pub struct WebClientConfig {
    pub auto_start: bool,
    pub bind_address: String,
    pub port: u16,
}

/// The editor used when none is configured: the one the environment names.
pub fn default_editor() -> (r: String)
    ensures
        r@ == "$EDITOR"@,
{
    String::from_str("$EDITOR")
}

/// The address the web client binds to when none is configured.
pub fn default_bind_address() -> (r: String)
    ensures
        r@ == "0.0.0.0"@,
{
    String::from_str("0.0.0.0")
}

/// The port of the web client when none is configured.
pub fn default_port() -> (r: u16)
    ensures
        r == 8082,
{
    8082
}

impl Default for WebClientConfig {
    fn default() -> (r: Self)
        ensures
            !r.auto_start,
            r.bind_address@ == "0.0.0.0"@,
            r.port == 8082,
    {
        WebClientConfig { auto_start: false, bind_address: default_bind_address(), port: default_port() }
    }
}

/// Settings that apply to every workspace, with the first tier of actions
/// and command-bar items.
#[derive(Debug, Clone, PartialEq, Eq)]
pub struct GlobalConfig {
    pub editor: String,
    pub git_info_level: GitInfoLevel,
    pub actions: KeyedMap<Action>,
    pub command_bar: Vec<CommandBarItem>,
}

/// A project: a directory, with the third tier of actions and items.
#[derive(Debug, Clone, PartialEq, Eq)]
pub struct Project {
    pub name: String,
    pub path: String,
    pub actions: KeyedMap<Action>,
    pub command_bar: Vec<CommandBarItem>,
}

/// A workspace: named projects, with the second tier of actions and items.
#[derive(Debug, Clone, PartialEq, Eq)]
pub struct Workspace {
    pub name: String,
    pub actions: KeyedMap<Action>,
    pub command_bar: Vec<CommandBarItem>,
    pub projects: Vec<Project>,
}

/// The whole configuration: global settings, web client and workspaces by
/// identifier.
#[derive(Debug, Clone, PartialEq, Eq)]
pub struct Config {
    pub global: GlobalConfig,
    pub web_client: WebClientConfig,
    pub workspace: KeyedMap<Workspace>,
}

/// The three tiers merged: a key of a later tier replaces the same key of an
/// earlier one.
pub open spec fn layered<V>(g: Map<Seq<char>, V>, w: Map<Seq<char>, V>, p: Map<Seq<char>, V>) -> Map<Seq<char>, V> {
    g.union_prefer_right(w).union_prefer_right(p)
}

impl Config {
    /// Every table of the configuration has each key once.
    pub open spec fn wf(&self) -> bool {
        &&& self.global.actions.wf()
        &&& self.workspace.wf()
        &&& forall|k: Seq<char>| #[trigger] self.workspace.as_map().contains_key(k) ==> {
            let w = self.workspace.as_map()[k];
            &&& w.actions.wf()
            &&& forall|i: int| 0 <= i < w.projects.len() ==> (#[trigger] w.projects[i]).actions.wf()
        }
    }

    /// The workspace with identifier `id`, if there is one.
    pub open spec fn workspace_spec(&self, id: Seq<char>) -> Option<Workspace> {
        if self.workspace.as_map().contains_key(id) {
            Some(self.workspace.as_map()[id])
        } else {
            None
        }
    }

    /// The project at `index` of the workspace `id`, if there is one.
    pub open spec fn project_spec(&self, id: Seq<char>, index: int) -> Option<Project> {
        match self.workspace_spec(id) {
            Some(w) => if 0 <= index < w.projects.len() { Some(w.projects[index]) } else { None },
            None => None,
        }
    }

    /// The actions in force for the project at `index` of workspace `id`:
    /// the global ones, overridden by the workspace's, overridden by the
    /// project's. A missing workspace or project adds nothing.
    pub open spec fn actions_spec(&self, id: Seq<char>, index: int) -> Map<Seq<char>, Action> {
        let g = self.global.actions.as_map();
        let w = match self.workspace_spec(id) {
            Some(ws) => ws.actions.as_map(),
            None => Map::empty(),
        };
        let p = match self.project_spec(id, index) {
            Some(pr) => pr.actions.as_map(),
            None => Map::empty(),
        };
        layered(g, w, p)
    }

    /// The workspace with identifier `id`.
    pub fn workspace_by_id(&self, id: &str) -> (r: Option<&Workspace>)
        requires
            self.wf(),
        ensures
            match r {
                Some(w) => self.workspace_spec(id@) == Some(*w),
                None => self.workspace_spec(id@) is None,
            },
    {
        self.workspace.get(id)
    }

    /// The project at `index` of the workspace `id`.
    pub fn project_at(&self, id: &str, index: usize) -> (r: Option<&Project>)
        requires
            self.wf(),
        ensures
            match r {
                Some(p) => self.project_spec(id@, index as int) == Some(*p),
                None => self.project_spec(id@, index as int) is None,
            },
    {
        match self.workspace.get(id) {
            Some(w) => if index < w.projects.len() { Some(&w.projects[index]) } else { None },
            None => None,
        }
    }

    /// The actions in force for the project at `project_index` of
    /// `workspace_id`, each key taken from the most specific tier that
    /// defines it.
    pub fn resolve_actions(&self, workspace_id: &str, project_index: usize) -> (r: KeyedMap<Action>)
        requires
            self.wf(),
        ensures
            r.wf(),
            r.as_map() == self.actions_spec(workspace_id@, project_index as int),
    {
        let mut r: KeyedMap<Action> = KeyedMap::new();
        assert(r.as_map() =~= Map::empty());
        overlay_actions(&mut r, &self.global.actions);
        assert(r.as_map() =~= self.global.actions.as_map());
        match self.workspace.get(workspace_id) {
            Some(w) => {
                proof {
                    assert(self.workspace.as_map().contains_key(workspace_id@));
                }
                overlay_actions(&mut r, &w.actions);
                if project_index < w.projects.len() {
                    overlay_actions(&mut r, &w.projects[project_index].actions);
                } else {
                    assert(r.as_map() =~= r.as_map().union_prefer_right(Map::empty()));
                }
            },
            None => {
                assert(r.as_map() =~= layered(self.global.actions.as_map(), Map::empty(), Map::empty()));
            },
        }
        r
    }
}

/// The items of `s` by key; a later item replaces an earlier one with the
/// same key.
pub open spec fn items_map(s: Seq<CommandBarItem>) -> Map<Seq<char>, CommandBarItem>
    decreases s.len(),
{
    if s.len() == 0 {
        Map::empty()
    } else {
        items_map(s.drop_last()).insert(s.last().key@, s.last())
    }
}

/// The items of `s`, each paired with its key.
pub open spec fn item_pairs(s: Seq<CommandBarItem>) -> Seq<(Seq<char>, CommandBarItem)> {
    s.map_values(|it: CommandBarItem| (it.key@, it))
}

/// Whether each entry of the table is stored under the item's own key.
pub open spec fn keyed_by_item(ps: Seq<(Seq<char>, CommandBarItem)>) -> bool {
    forall|j: int| 0 <= j < ps.len() ==> (#[trigger] ps[j]).0 == ps[j].1.key@
}

impl Config {
    /// The command-bar items in force for the project at `index` of
    /// workspace `id`, merged by key as the actions are.
    pub open spec fn command_bar_spec(&self, id: Seq<char>, index: int) -> Map<Seq<char>, CommandBarItem> {
        let g = items_map(self.global.command_bar@);
        let w = match self.workspace_spec(id) {
            Some(ws) => items_map(ws.command_bar@),
            None => Map::empty(),
        };
        let p = match self.project_spec(id, index) {
            Some(pr) => items_map(pr.command_bar@),
            None => Map::empty(),
        };
        layered(g, w, p)
    }

    /// The command-bar items in force for the project at `project_index` of
    /// `workspace_id`, each key taken from the most specific tier that
    /// defines it, listed by key.
    pub fn resolve_command_bar(&self, workspace_id: &str, project_index: usize) -> (r: Vec<CommandBarItem>)
        requires
            self.wf(),
        ensures
            keys_unique(item_pairs(r@)),
            pairs_map(item_pairs(r@)) == self.command_bar_spec(workspace_id@, project_index as int),
            forall|k: int| 0 <= k < r.len() - 1 ==> text_le((#[trigger] r[k]).key@, r[k + 1].key@),
    {
        let mut t: KeyedMap<CommandBarItem> = KeyedMap::new();
        assert(t.as_map() =~= Map::empty());
        overlay_items(&mut t, &self.global.command_bar);
        assert(t.as_map() =~= items_map(self.global.command_bar@));
        match self.workspace.get(workspace_id) {
            Some(w) => {
                proof {
                    assert(self.workspace.as_map().contains_key(workspace_id@));
                }
                overlay_items(&mut t, &w.command_bar);
                if project_index < w.projects.len() {
                    overlay_items(&mut t, &w.projects[project_index].command_bar);
                } else {
                    assert(t.as_map() =~= t.as_map().union_prefer_right(Map::empty()));
                }
            },
            None => {
                assert(t.as_map() =~= layered(items_map(self.global.command_bar@), Map::empty(), Map::empty()));
            },
        }
        sorted_items(&t)
    }
}

/// The items of `t`, listed by key.
fn sorted_items(t: &KeyedMap<CommandBarItem>) -> (r: Vec<CommandBarItem>)
    requires
        t.wf(),
        keyed_by_item(t.pairs()),
    ensures
        keys_unique(item_pairs(r@)),
        pairs_map(item_pairs(r@)) == t.as_map(),
        forall|k: int| 0 <= k < r.len() - 1 ==> text_le((#[trigger] r[k]).key@, r[k + 1].key@),
{
    let n = t.len();
    let mut keys: Vec<String> = Vec::new();
    let mut first: Vec<bool> = Vec::new();
    let mut i: usize = 0;
    while i < n
        invariant
            n == t.pairs().len(),
            i <= n,
            keys.len() == i,
            first.len() == i,
            forall|j: int| 0 <= j < i ==> (#[trigger] keys@[j])@ == t.pairs()[j].0,
            forall|j: int| 0 <= j < i ==> !(#[trigger] first@[j]),
        decreases n - i,
    {
        let e = t.entry(i);
        let k = e.0;
        let ghost kb = keys@;
        let ghost fb = first@;
        keys.push(String::from_str(k));
        first.push(false);
        assert(keys@[i as int]@ == t.pairs()[i as int].0);
        assert forall|j: int| 0 <= j < i + 1 implies (#[trigger] keys@[j])@ == t.pairs()[j].0 by {
            if j < i {
                assert(keys@[j] == kb[j]);
            }
        }
        assert forall|j: int| 0 <= j < i + 1 implies !(#[trigger] first@[j]) by {
            if j < i {
                assert(first@[j] == fb[j]);
            }
        }
        i = i + 1;
    }
    let order = sort_order(&keys, &first);
    let mut r: Vec<CommandBarItem> = Vec::new();
    let mut k: usize = 0;
    while k < n
        invariant
            n == t.pairs().len(),
            n == order.len(),
            is_arrangement(order@, n as nat),
            k <= n,
            r.len() == k,
            forall|j: int| 0 <= j < k ==> r[j] == t.pairs()[order[j] as int].1,
        decreases n - k,
    {
        let (_, it) = t.entry(order[k]);
        r.push(it.duplicate());
        k = k + 1;
    }
    let ghost qs = item_pairs(r@);
    assert forall|j: int| 0 <= j < n implies qs[j] == t.pairs()[order@[j] as int] by {
        assert(t.pairs()[order@[j] as int].0 == t.pairs()[order@[j] as int].1.key@);
    }
    proof {
        lemma_arranged_map(t.pairs(), order@, qs);
    }
    assert forall|j: int| 0 <= j < r.len() - 1 implies text_le((#[trigger] r[j]).key@, r[j + 1].key@) by {
        assert(key_le(key_at(keys@, first@, order@[j] as int), key_at(keys@, first@, order@[j + 1] as int)));
        assert(t.pairs()[order@[j] as int].0 == t.pairs()[order@[j] as int].1.key@);
        assert(t.pairs()[order@[j + 1] as int].0 == t.pairs()[order@[j + 1] as int].1.key@);
    }
    r
}

/// The entries of `ps`, each key as its text.
pub open spec fn entry_pairs(ps: Seq<(String, Action)>) -> Seq<(Seq<char>, Action)> {
    ps.map_values(|e: (String, Action)| (e.0@, e.1))
}

/// The entries of `t`, listed by key.
pub fn sorted_actions(t: &KeyedMap<Action>) -> (r: Vec<(String, Action)>)
    requires
        t.wf(),
    ensures
        keys_unique(entry_pairs(r@)),
        pairs_map(entry_pairs(r@)) == t.as_map(),
        forall|k: int| 0 <= k < r.len() - 1 ==> text_le((#[trigger] r[k]).0@, r[k + 1].0@),
{
    let n = t.len();
    let mut keys: Vec<String> = Vec::new();
    let mut first: Vec<bool> = Vec::new();
    let mut i: usize = 0;
    while i < n
        invariant
            n == t.pairs().len(),
            i <= n,
            keys.len() == i,
            first.len() == i,
            forall|j: int| 0 <= j < i ==> (#[trigger] keys@[j])@ == t.pairs()[j].0,
            forall|j: int| 0 <= j < i ==> !(#[trigger] first@[j]),
        decreases n - i,
    {
        let e = t.entry(i);
        let ghost kb = keys@;
        let ghost fb = first@;
        keys.push(String::from_str(e.0));
        first.push(false);
        assert forall|j: int| 0 <= j < i + 1 implies (#[trigger] keys@[j])@ == t.pairs()[j].0 by {
            if j < i {
                assert(keys@[j] == kb[j]);
            }
        }
        assert forall|j: int| 0 <= j < i + 1 implies !(#[trigger] first@[j]) by {
            if j < i {
                assert(first@[j] == fb[j]);
            }
        }
        i = i + 1;
    }
    let order = sort_order(&keys, &first);
    let mut r: Vec<(String, Action)> = Vec::new();
    let mut k: usize = 0;
    while k < n
        invariant
            n == t.pairs().len(),
            n == order.len(),
            is_arrangement(order@, n as nat),
            k <= n,
            r.len() == k,
            forall|j: int| 0 <= j < k ==> (#[trigger] entry_pairs(r@)[j]) == t.pairs()[order[j] as int],
        decreases n - k,
    {
        let e = t.entry(order[k]);
        let ghost rb = r@;
        r.push((String::from_str(e.0), e.1.duplicate()));
        assert(entry_pairs(r@)[k as int] == (e.0@, *e.1));
        assert forall|j: int| 0 <= j < k + 1 implies (#[trigger] entry_pairs(r@)[j]) == t.pairs()[order[j] as int] by {
            if j < k {
                assert(r@[j] == rb[j]);
                assert(entry_pairs(r@)[j] == entry_pairs(rb)[j]);
            }
        }
        k = k + 1;
    }
    proof {
        lemma_arranged_map(t.pairs(), order@, entry_pairs(r@));
    }
    assert forall|j: int| 0 <= j < r.len() - 1 implies text_le((#[trigger] r[j]).0@, r[j + 1].0@) by {
        assert(key_le(key_at(keys@, first@, order@[j] as int), key_at(keys@, first@, order@[j + 1] as int)));
        assert(entry_pairs(r@)[j].0 == r[j].0@);
        assert(entry_pairs(r@)[j + 1].0 == r[j + 1].0@);
    }
    r
}

/// Listing the entries of a table in another order keeps its keys unique
/// and its map.
pub proof fn lemma_arranged_map<V>(ps: Seq<(Seq<char>, V)>, order: Seq<usize>, qs: Seq<(Seq<char>, V)>)
    requires
        keys_unique(ps),
        is_arrangement(order, ps.len()),
        qs.len() == order.len(),
        forall|k: int| 0 <= k < qs.len() ==> qs[k] == ps[order[k] as int],
    ensures
        keys_unique(qs),
        pairs_map(qs) == pairs_map(ps),
{
    assert forall|i: int, j: int| 0 <= i < qs.len() && 0 <= j < qs.len() && i != j implies qs[i].0 != qs[j].0 by {
        assert(order[i] != order[j]);
    }
    assert forall|x: Seq<char>| has_key(qs, x) <==> has_key(ps, x) by {
        if has_key(qs, x) {
            let k = choose|k: int| 0 <= k < qs.len() && qs[k].0 == x;
            assert(ps[order[k] as int].0 == x);
        }
        if has_key(ps, x) {
            let j = choose|j: int| 0 <= j < ps.len() && ps[j].0 == x;
            assert(crate::ordering::occurs(order, j));
            let k = choose|k: int| 0 <= k < order.len() && order[k] == j;
            assert(qs[k].0 == x);
        }
    }
    assert forall|x: Seq<char>| #[trigger] pairs_map(qs).contains_key(x) implies pairs_map(qs)[x] == pairs_map(ps)[x] by {
        let k = choose|k: int| 0 <= k < qs.len() && qs[k].0 == x;
        lemma_unique_lookup(qs, k);
        lemma_unique_lookup(ps, order[k] as int);
    }
    assert(pairs_map(qs) =~= pairs_map(ps));
}

/// Stores every item of `layer` in `target` under its key, a later item
/// replacing an earlier one with the same key.
pub fn overlay_items(target: &mut KeyedMap<CommandBarItem>, layer: &Vec<CommandBarItem>)
    requires
        old(target).wf(),
        keyed_by_item(old(target).pairs()),
    ensures
        final(target).wf(),
        keyed_by_item(final(target).pairs()),
        final(target).as_map() == old(target).as_map().union_prefer_right(items_map(layer@)),
{
    let ghost start = target.as_map();
    let n = layer.len();
    let mut i: usize = 0;
    assert(layer@.take(0) =~= Seq::<CommandBarItem>::empty());
    assert(start =~= start.union_prefer_right(Map::empty()));
    while i < n
        invariant
            n == layer.len(),
            i <= n,
            target.wf(),
            keyed_by_item(target.pairs()),
            target.as_map() == start.union_prefer_right(items_map(layer@.take(i as int))),
        decreases n - i,
    {
        let it = layer[i].duplicate();
        assert(layer@.take(i + 1).drop_last() =~= layer@.take(i as int));
        let ghost before = target.pairs();
        target.insert(it.key.clone(), it);
        assert(keyed_by_item(target.pairs())) by {
            if has_key(before, layer@[i as int].key@) {
                let j = choose|j: int| 0 <= j < before.len() && before[j].0 == layer@[i as int].key@;
                assert(target.pairs() == before.update(j, (layer@[i as int].key@, layer@[i as int])));
            }
        }
        assert(target.as_map() =~= start.union_prefer_right(items_map(layer@.take(i + 1))));
        i = i + 1;
    }
    assert(layer@.take(n as int) =~= layer@);
}

/// Stores every entry of `layer` in `target`, replacing entries with the
/// same key.
pub fn overlay_actions(target: &mut KeyedMap<Action>, layer: &KeyedMap<Action>)
    requires
        old(target).wf(),
        layer.wf(),
    ensures
        final(target).wf(),
        final(target).as_map() == old(target).as_map().union_prefer_right(layer.as_map()),
{
    let ghost start = target.as_map();
    let n = layer.len();
    let mut i: usize = 0;
    assert(pairs_map(layer.pairs().take(0)) =~= Map::empty());
    assert(start =~= start.union_prefer_right(Map::empty()));
    while i < n
        invariant
            n == layer.pairs().len(),
            layer.wf(),
            i <= n,
            target.wf(),
            target.as_map() == start.union_prefer_right(pairs_map(layer.pairs().take(i as int))),
        decreases n - i,
    {
        let (k, a) = layer.entry(i);
        proof {
            lemma_prefix_push(layer.pairs(), i as int);
        }
        target.insert(String::from_str(k), a.duplicate());
        assert(target.as_map() =~= start.union_prefer_right(pairs_map(layer.pairs().take(i + 1))));
        i = i + 1;
    }
    assert(layer.pairs().take(n as int) =~= layer.pairs());
}

/// Taking one more entry of a table with unique keys adds that entry to the
/// map of the prefix.
pub proof fn lemma_prefix_push<V>(ps: Seq<(Seq<char>, V)>, i: int)
    requires
        keys_unique(ps),
        0 <= i < ps.len(),
    ensures
        keys_unique(ps.take(i)),
        pairs_map(ps.take(i + 1)) == pairs_map(ps.take(i)).insert(ps[i].0, ps[i].1),
{
    let pre = ps.take(i);
    assert(ps.take(i + 1) =~= pre.push(ps[i]));
    assert(!has_key(pre, ps[i].0)) by {
        if has_key(pre, ps[i].0) {
            let j = choose|j: int| 0 <= j < pre.len() && pre[j].0 == ps[i].0;
            assert(ps[j].0 == ps[i].0);
        }
    }
    lemma_push_map(pre, ps[i].0, ps[i].1);
}

/// A key defined at several tiers takes the most specific definition: the
/// project's if it has one, else the workspace's, else the global one.
pub proof fn lemma_override_precedence<V>(g: Map<Seq<char>, V>, w: Map<Seq<char>, V>, p: Map<Seq<char>, V>, k: Seq<char>)
    ensures
        p.contains_key(k) ==> layered(g, w, p).contains_key(k) && layered(g, w, p)[k] == p[k],
        !p.contains_key(k) && w.contains_key(k) ==> layered(g, w, p).contains_key(k) && layered(g, w, p)[k] == w[k],
        !p.contains_key(k) && !w.contains_key(k) && g.contains_key(k) ==> layered(g, w, p).contains_key(k)
            && layered(g, w, p)[k] == g[k],
        !p.contains_key(k) && !w.contains_key(k) && !g.contains_key(k) ==> !layered(g, w, p).contains_key(k),
{
}

/// Whether the character is white space, as Unicode defines it.
pub uninterp spec fn whitespace(c: char) -> bool;

/// Relies on `char::is_whitespace`: whether the character has Unicode's
/// White_Space property.
#[verifier::external_body]
pub(crate) fn is_space(c: char) -> (r: bool)
    ensures
        r == whitespace(c),
{
    c.is_whitespace()
}

/// Whether the text holds nothing but white space.
pub open spec fn blank(s: Seq<char>) -> bool {
    forall|i: int| 0 <= i < s.len() ==> whitespace(#[trigger] s[i])
}

/// Whether the text holds nothing but white space.
pub fn is_blank(s: &str) -> (r: bool)
    ensures
        r == blank(s@),
{
    let n = s.unicode_len();
    let mut i: usize = 0;
    while i < n
        invariant
            n == s@.len(),
            i <= n,
            forall|j: int| 0 <= j < i ==> whitespace(#[trigger] s@[j]),
        decreases n - i,
    {
        if !is_space(s.get_char(i)) {
            return false;
        }
        i = i + 1;
    }
    true
}

/// What a project's path turned out to be on disk.
#[derive(Debug, Clone, Copy, PartialEq, Eq)]
pub enum PathKind {
    Missing,
    File,
    Directory,
}

/// Why a configuration was rejected.
#[derive(Debug, Clone, PartialEq, Eq)]
pub enum ConfigError {
    /// No workspace is configured.
    NoWorkspaces,
    /// An action's key is not a single character.
    InvalidActionKey { key: String },
    /// An action's command is empty or white space.
    EmptyCommand { action_name: String },
    /// A project's path does not exist.
    PathNotFound { path: String },
    /// A project's path is not a directory.
    PathNotDirectory { path: String },
}

/// Whether every action of the table has a one-character key and a command
/// that is not blank.
pub open spec fn actions_valid(t: KeyedMap<Action>) -> bool {
    forall|i: int|
        0 <= i < t.pairs().len() ==> (#[trigger] t.pairs()[i]).0.len() == 1 && !blank(t.pairs()[i].1.command@)
}

/// Whether the table holds an action that is rejected with `e`.
pub open spec fn rejects_action(t: KeyedMap<Action>, e: ConfigError) -> bool {
    exists|i: int|
        0 <= i < t.pairs().len() && match e {
            ConfigError::InvalidActionKey { key } => (#[trigger] t.pairs()[i]).0 == key@ && key@.len() != 1,
            ConfigError::EmptyCommand { action_name } => t.pairs()[i].1.name == action_name
                && blank(t.pairs()[i].1.command@),
            _ => false,
        }
}

/// Checks the actions of one table.
fn validate_actions(t: &KeyedMap<Action>) -> (r: Result<(), ConfigError>)
    ensures
        r is Ok <==> actions_valid(*t),
        r matches Err(e) ==> rejects_action(*t, e),
{
    let n = t.len();
    let mut i: usize = 0;
    while i < n
        invariant
            n == t.pairs().len(),
            i <= n,
            forall|j: int| 0 <= j < i ==> (#[trigger] t.pairs()[j]).0.len() == 1 && !blank(t.pairs()[j].1.command@),
        decreases n - i,
    {
        let (key, action) = t.entry(i);
        if key.unicode_len() != 1 {
            let e = ConfigError::InvalidActionKey { key: String::from_str(key) };
            assert(rejects_action(*t, e) && t.pairs()[i as int].0.len() != 1);
            return Err(e);
        }
        if is_blank(action.command.as_str()) {
            let e = ConfigError::EmptyCommand { action_name: action.name.clone() };
            assert(rejects_action(*t, e) && blank(t.pairs()[i as int].1.command@));
            return Err(e);
        }
        i = i + 1;
    }
    Ok(())
}

/// Whether a project's actions are valid and its path is a directory.
pub open spec fn project_valid(pr: Project, kind: PathKind) -> bool {
    actions_valid(pr.actions) && kind == PathKind::Directory
}

impl Config {
    /// Whether `kinds` has one entry for each project of each workspace, in
    /// the order of the workspace table.
    pub open spec fn kinds_fit(&self, kinds: Seq<Vec<PathKind>>) -> bool {
        &&& kinds.len() == self.workspace.pairs().len()
        &&& forall|w: int| 0 <= w < kinds.len() ==> (#[trigger] kinds[w]).len() == self.workspace.pairs()[w].1.projects.len()
    }

    /// Whether the configuration is acceptable, given what each project's
    /// path is on disk: at least one workspace, every action valid at every
    /// tier, every project path a directory.
    pub open spec fn valid(&self, kinds: Seq<Vec<PathKind>>) -> bool {
        &&& self.workspace.pairs().len() > 0
        &&& actions_valid(self.global.actions)
        &&& forall|w: int| 0 <= w < self.workspace.pairs().len() ==> {
            let ws = #[trigger] self.workspace.pairs()[w].1;
            &&& actions_valid(ws.actions)
            &&& forall|p: int| 0 <= p < ws.projects.len() ==> project_valid(#[trigger] ws.projects[p], kinds[w][p])
        }
    }

    /// Whether the configuration holds something that is rejected with `e`.
    pub open spec fn rejects(&self, kinds: Seq<Vec<PathKind>>, e: ConfigError) -> bool {
        ||| rejects_action(self.global.actions, e)
        ||| exists|w: int| 0 <= w < self.workspace.pairs().len() && {
            let ws = #[trigger] self.workspace.pairs()[w].1;
            ||| rejects_action(ws.actions, e)
            ||| exists|p: int| 0 <= p < ws.projects.len() && {
                ||| rejects_action(#[trigger] ws.projects[p].actions, e)
                ||| e == (ConfigError::PathNotFound { path: ws.projects[p].path }) && kinds[w][p] == PathKind::Missing
                ||| e == (ConfigError::PathNotDirectory { path: ws.projects[p].path }) && kinds[w][p] == PathKind::File
            }
        }
    }

    /// Checks the configuration; `kinds[w][p]` tells what the path of
    /// project `p` of the workspace at position `w` is on disk.
    pub fn validate(&self, kinds: &Vec<Vec<PathKind>>) -> (r: Result<(), ConfigError>)
        requires
            self.kinds_fit(kinds@),
        ensures
            r is Ok <==> self.valid(kinds@),
            r == Err::<(), ConfigError>(ConfigError::NoWorkspaces) <==> self.workspace.pairs().len() == 0,
            r matches Err(e) ==> e == ConfigError::NoWorkspaces || self.rejects(kinds@, e),
    {
        if self.workspace.is_empty() {
            return Err(ConfigError::NoWorkspaces);
        }
        match validate_actions(&self.global.actions) {
            Ok(()) => {},
            Err(e) => {
                return Err(e);
            },
        }
        let n = self.workspace.len();
        let mut w: usize = 0;
        while w < n
            invariant
                n == self.workspace.pairs().len(),
                n > 0,
                self.kinds_fit(kinds@),
                actions_valid(self.global.actions),
                w <= n,
                forall|v: int| 0 <= v < w ==> {
                    let ws = #[trigger] self.workspace.pairs()[v].1;
                    &&& actions_valid(ws.actions)
                    &&& forall|p: int| 0 <= p < ws.projects.len() ==> project_valid(#[trigger] ws.projects[p], kinds@[v]@[p])
                },
            decreases n - w,
        {
            let (_, ws) = self.workspace.entry(w);
            let ghost wsv = self.workspace.pairs()[w as int].1;
            match validate_actions(&ws.actions) {
                Ok(()) => {},
                Err(e) => {
                    assert(self.rejects(kinds@, e) && ws.actions == self.workspace.pairs()[w as int].1.actions);
                    return Err(e);
                },
            }
            let m = ws.projects.len();
            let mut p: usize = 0;
            while p < m
                invariant
                    n == self.workspace.pairs().len(),
                    w < n,
                    self.kinds_fit(kinds@),
                    *ws == self.workspace.pairs()[w as int].1,
                    wsv == *ws,
                    m == ws.projects.len(),
                    p <= m,
                    forall|q: int| 0 <= q < p ==> project_valid(#[trigger] ws.projects[q], kinds@[w as int]@[q]),
                decreases m - p,
            {
                let project = &ws.projects[p];
                assert(kinds@[w as int].len() == m);
                match validate_actions(&project.actions) {
                    Ok(()) => {},
                    Err(e) => {
                        assert(rejects_action(wsv.projects[p as int].actions, e));
                        assert(self.rejects(kinds@, e));
                        return Err(e);
                    },
                }
                let kind = kinds[w][p];
                assert(kind == kinds@[w as int]@[p as int]);
                match kind {
                    PathKind::Missing => {
                        let e = ConfigError::PathNotFound { path: project.path.clone() };
                        assert(wsv.projects[p as int].actions == project.actions);
                        assert(wsv.projects[p as int].path == project.path);
                        assert(self.rejects(kinds@, e));
                        return Err(e);
                    },
                    PathKind::File => {
                        let e = ConfigError::PathNotDirectory { path: project.path.clone() };
                        assert(wsv.projects[p as int].actions == project.actions);
                        assert(wsv.projects[p as int].path == project.path);
                        assert(self.rejects(kinds@, e));
                        return Err(e);
                    },
                    PathKind::Directory => {},
                }
                assert(project_valid(ws.projects[p as int], kinds@[w as int]@[p as int]));
                p = p + 1;
            }
            assert(actions_valid(wsv.actions));

            w = w + 1;
        }
        Ok(())
    }
}

/// Relies on `dirs::config_dir`: the user's configuration directory, if the
/// platform has one. It depends on the environment.
#[verifier::external_body]
fn user_config_dir() -> (r: Option<String>) {
    match dirs::config_dir() {
        Some(p) => Some(p.to_string_lossy().into_owned()),
        None => None,
    }
}

/// The directory of this tool's files under `base`, or under the current
/// directory when there is no base.
pub fn config_dir_under(base: Option<String>) -> (r: String)
    ensures
        r@ == join_path(
            match base {
                Some(b) => b@,
                None => "."@,
            },
            "gzc"@,
        ),
{
    match base {
        Some(b) => join(b.as_str(), "gzc"),
        None => join(".", "gzc"),
    }
}

impl Config {
    /// The directory of this tool's files: `gzc` under the user's
    /// configuration directory, or under the current directory.
    pub fn default_dir() -> (r: String)
        ensures
            exists|b: Seq<char>| r@ == join_path(b, "gzc"@),
    {
        config_dir_under(user_config_dir())
    }

    /// The configuration file, `config.toml` in the default directory.
    pub fn default_path() -> (r: String)
        ensures
            exists|b: Seq<char>| r@ == join_path(join_path(b, "gzc"@), "config.toml"@),
    {
        join(Config::default_dir().as_str(), "config.toml")
    }
}

} // verus!
