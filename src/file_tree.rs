//! File tree of the file browser: directories open lazily, and the nodes
//! that are shown are kept as a flat, pre-order list of child-index paths.
//!
//! Reading the disk is left to the caller, who hands over the listing of a
//! directory when its children are first needed.

use vstd::prelude::*;
use vstd::string::*;

use crate::app::AppState;
use crate::ordering::{is_arrangement, key_at, key_le, sort_order};
use crate::text::{join, join_path, lower_of, to_lower};

verus! {

/// One entry of a directory listing, as read from disk.
#[derive(Debug, Clone, PartialEq, Eq)]
pub struct EntryInfo {
    pub name: String,
    pub is_dir: bool,
}

/// A node of the file tree.
#[derive(Debug)]
pub struct FileNode {
    /// The name of the file or directory (not the full path).
    pub name: String,
    /// The full path.
    pub path: String,
    pub is_dir: bool,
    /// Whether the directory is open (meaningful for directories only).
    pub expanded: bool,
    /// The depth in the tree; the root is at 0.
    pub depth: usize,
    /// The children, once loaded.
    pub children: Vec<FileNode>,
}

/// A shown node, by the child indices that lead to it from the root.
#[derive(Debug, Clone, PartialEq, Eq)]
pub struct FlatNodeRef {
    pub path: Vec<usize>,
}

/// A file tree and the list of the nodes it shows.
#[derive(Debug)]
pub struct FileTree {
    pub root: FileNode,
    pub flat_list: Vec<FlatNodeRef>,
}

/// Whether the entry is hidden: its name starts with a dot.
pub open spec fn hidden(name: Seq<char>) -> bool {
    name.len() > 0 && name[0] == '.'
}

/// Whether the node's children are shown.
pub open spec fn shows_children(n: FileNode) -> bool {
    n.is_dir && n.expanded
}

/// Each path of `ps` with `pre` put in front.
pub open spec fn prefixed(pre: Seq<usize>, ps: Seq<Seq<usize>>) -> Seq<Seq<usize>> {
    ps.map_values(|p: Seq<usize>| pre + p)
}

/// The nodes shown from `n`, in pre-order: `n` itself (the empty path),
/// then, if its children are shown, what each child shows.
pub open spec fn visible(n: FileNode) -> Seq<Seq<usize>>
    decreases n, n.children.len() + 1,
{
    seq![Seq::<usize>::empty()] + if shows_children(n) {
        visible_upto(n, n.children.len() as nat)
    } else {
        Seq::empty()
    }
}

/// What the first `j` children of `n` show, each path starting with the
/// child's index.
pub open spec fn visible_upto(n: FileNode, j: nat) -> Seq<Seq<usize>>
    decreases n, j,
{
    if j == 0 || j > n.children.len() {
        Seq::empty()
    } else {
        visible_upto(n, (j - 1) as nat) + prefixed(seq![(j - 1) as usize], visible(n.children[j - 1]))
    }
}

/// The node reached from `n` by following the child indices of `path`.
pub open spec fn node_at(n: FileNode, path: Seq<usize>) -> Option<FileNode>
    decreases path.len(),
{
    if path.len() == 0 {
        Some(n)
    } else if path[0] < n.children.len() {
        node_at(n.children[path[0] as int], path.drop_first())
    } else {
        None
    }
}

/// The paths of a list of node references.
pub open spec fn ref_paths(refs: Seq<FlatNodeRef>) -> Seq<Seq<usize>> {
    refs.map_values(|r: FlatNodeRef| r.path@)
}

/// The sort key of a child: directories first, then the lower-cased name.
pub open spec fn child_key(n: FileNode) -> (bool, Seq<char>) {
    (n.is_dir, lower_of(n.name@))
}


/// The depth of a child of a node at depth `d` (at most the largest size).
pub open spec fn child_depth(d: usize) -> usize {
    if d < usize::MAX { (d + 1) as usize } else { d }
}

/// Whether `c` is the child that the entry `e` becomes under `parent`.
pub open spec fn is_child_of(c: FileNode, parent: FileNode, e: EntryInfo) -> bool {
    &&& c.name == e.name
    &&& c.path@ == join_path(parent.path@, e.name@)
    &&& c.is_dir == e.is_dir
    &&& !c.expanded
    &&& c.depth == child_depth(parent.depth)
    &&& c.children@.len() == 0
}

/// The entries of the listing that are not hidden, in listing order.
pub open spec fn shown_entries(listing: Seq<EntryInfo>) -> Seq<EntryInfo> {
    listing.filter(|e: EntryInfo| !hidden(e.name@))
}

/// Whether `children` are the shown entries of `listing` under `parent`,
/// directories first, then by lower-cased name.
pub open spec fn loaded_from(children: Seq<FileNode>, parent: FileNode, listing: Seq<EntryInfo>) -> bool {
    let kept = shown_entries(listing);
    &&& children.len() == kept.len()
    &&& exists|order: Seq<usize>|
        is_arrangement(order, kept.len()) && forall|k: int|
            0 <= k < children.len() ==> is_child_of(#[trigger] children[k], parent, kept[order[k] as int])
    &&& forall|k: int| 0 <= k < children.len() - 1 ==> key_le(child_key(#[trigger] children[k]), child_key(children[k + 1]))
}

/// The node `n` after a toggle, given the listing of its directory: a
/// file stays as it is; a directory opens or closes, and its children are
/// loaded from the listing when it opens with none loaded.
pub open spec fn toggled(n: FileNode, listing: Seq<EntryInfo>, after: FileNode) -> bool {
    if !n.is_dir {
        after == n
    } else {
        &&& after.name == n.name
        &&& after.path == n.path
        &&& after.is_dir
        &&& after.expanded == !n.expanded
        &&& after.depth == n.depth
        &&& if !n.expanded && n.children.len() == 0 {
            loaded_from(after.children@, n, listing)
        } else {
            after.children == n.children
        }
    }
}

/// Whether `after` is `n` with the node at `path` toggled as `toggled`
/// says, and every other node as it was.
pub open spec fn toggled_at(n: FileNode, path: Seq<usize>, listing: Seq<EntryInfo>, after: FileNode) -> bool
    decreases path.len(),
{
    if path.len() == 0 {
        toggled(n, listing, after)
    } else if path[0] < n.children.len() {
        let j = path[0] as int;
        &&& after.name == n.name
        &&& after.path == n.path
        &&& after.is_dir == n.is_dir
        &&& after.expanded == n.expanded
        &&& after.depth == n.depth
        &&& after.children.len() == n.children.len()
        &&& forall|k: int| 0 <= k < n.children.len() && k != j ==> after.children[k] == n.children[k]
        &&& toggled_at(n.children[j], path.drop_first(), listing, after.children[j])
    } else {
        after == n
    }
}

impl FileNode {
    /// Loads the children of this directory from `listing`, the entries of
    /// its directory: hidden entries are left out, and the rest are sorted
    /// directories first, then by lower-cased name. A file is left as it is.
    pub fn load_children(&mut self, listing: &Vec<EntryInfo>)
        ensures
            !old(self).is_dir ==> *final(self) == *old(self),
            old(self).is_dir ==> loaded_from(final(self).children@, *old(self), listing@),
            final(self).name == old(self).name,
            final(self).path == old(self).path,
            final(self).is_dir == old(self).is_dir,
            final(self).expanded == old(self).expanded,
            final(self).depth == old(self).depth,
    {
        if !self.is_dir {
            return;
        }
        let ghost me = *self;
        let mut kept: Vec<&EntryInfo> = Vec::new();
        let mut keys: Vec<String> = Vec::new();
        let mut first: Vec<bool> = Vec::new();
        let n = listing.len();
        let mut i: usize = 0;
        while i < n
            invariant
                n == listing.len(),
                i <= n,
                kept.len() == keys.len(),
                kept.len() == first.len(),
                kept@.map_values(|e: &EntryInfo| *e) == shown_entries(listing@.take(i as int)),
                forall|k: int| 0 <= k < kept.len() ==> (#[trigger] keys@[k])@ == lower_of(kept@[k].name@),
                forall|k: int| 0 <= k < kept.len() ==> #[trigger] first@[k] == kept@[k].is_dir,
            decreases n - i,
        {
            let e = &listing[i];
            proof {
                reveal(Seq::filter);
                assert(listing@.take(i + 1).drop_last() =~= listing@.take(i as int));
            }
            if !starts_with_dot(e.name.as_str()) {
                let ghost kb = keys@;
                let ghost fb = first@;
                let ghost eb = kept@;
                kept.push(e);
                keys.push(to_lower(e.name.as_str()));
                first.push(e.is_dir);
                assert(kept@.map_values(|e: &EntryInfo| *e) =~= eb.map_values(|e: &EntryInfo| *e).push(*e));
                assert forall|k: int| 0 <= k < kept.len() implies (#[trigger] keys@[k])@ == lower_of(kept@[k].name@) by {
                    if k < kb.len() {
                        assert(keys@[k] == kb[k] && kept@[k] == eb[k]);
                    }
                }
                assert forall|k: int| 0 <= k < kept.len() implies #[trigger] first@[k] == kept@[k].is_dir by {
                    if k < kb.len() {
                        assert(first@[k] == fb[k] && kept@[k] == eb[k]);
                    }
                }
            }
            i = i + 1;
        }
        assert(listing@.take(n as int) =~= listing@);
        let order = sort_order(&keys, &first);
        let m = kept.len();
        let mut children: Vec<FileNode> = Vec::new();
        let mut k: usize = 0;
        while k < m
            invariant
                m == kept.len(),
                m == order.len(),
                m == keys.len(),
                m == first.len(),
                is_arrangement(order@, m as nat),
                k <= m,
                children.len() == k,
                *self == me,
                forall|j: int| 0 <= j < k ==> is_child_of(#[trigger] children@[j], me, *kept@[order@[j] as int]),
            decreases m - k,
        {
            let e = kept[order[k]];
            let child = FileNode {
                name: e.name.clone(),
                path: join(self.path.as_str(), e.name.as_str()),
                is_dir: e.is_dir,
                expanded: false,
                depth: if self.depth < usize::MAX { self.depth + 1 } else { self.depth },
                children: Vec::new(),
            };
            let ghost cb = children@;
            children.push(child);
            assert forall|j: int| 0 <= j < k + 1 implies is_child_of(#[trigger] children@[j], me, *kept@[order@[j] as int]) by {
                if j < k {
                    assert(children@[j] == cb[j]);
                }
            }
            k = k + 1;
        }
        let ghost kept_v = kept@.map_values(|e: &EntryInfo| *e);
        assert(forall|j: int| 0 <= j < m ==> kept_v[j] == *kept@[j]);
        assert forall|j: int| 0 <= j < children.len() - 1 implies key_le(child_key(#[trigger] children@[j]), child_key(children@[j + 1])) by {
            assert(key_le(key_at(keys@, first@, order@[j] as int), key_at(keys@, first@, order@[j + 1] as int)));
        }
        assert(forall|j: int| 0 <= j < children.len() ==> is_child_of(#[trigger] children@[j], me, kept_v[order@[j] as int]));
        self.children = children;
    }

    /// Opens this directory if it is closed and closes it if it is open;
    /// on opening with no children loaded, they are loaded from `listing`.
    /// A file is left as it is.
    pub fn toggle_expanded(&mut self, listing: &Vec<EntryInfo>)
        ensures
            toggled(*old(self), listing@, *final(self)),
    {
        if !self.is_dir {
            return;
        }
        self.expanded = !self.expanded;
        if self.expanded && self.children.len() == 0 {
            self.load_children(listing);
        }
    }
}

/// Whether the text starts with a dot.
fn starts_with_dot(s: &str) -> (r: bool)
    ensures
        r == hidden(s@),
{
    s.unicode_len() > 0 && s.get_char(0) == '.'
}

/// A copy of a list of indices.
fn copy_indices(v: &Vec<usize>) -> (r: Vec<usize>)
    ensures
        r@ == v@,
{
    let mut r: Vec<usize> = Vec::new();
    let n = v.len();
    let mut i: usize = 0;
    while i < n
        invariant
            n == v.len(),
            i <= n,
            r@ == v@.take(i as int),
        decreases n - i,
    {
        r.push(v[i]);
        assert(r@ =~= v@.take(i + 1));
        i = i + 1;
    }
    assert(v@.take(n as int) =~= v@);
    r
}

/// Putting a prefix in front distributes over concatenation.
pub proof fn lemma_prefixed_add(pre: Seq<usize>, a: Seq<Seq<usize>>, b: Seq<Seq<usize>>)
    ensures
        prefixed(pre, a + b) == prefixed(pre, a) + prefixed(pre, b),
{
    assert(prefixed(pre, a + b) =~= prefixed(pre, a) + prefixed(pre, b));
}

/// Two prefixes in a row are one prefix.
pub proof fn lemma_prefixed_twice(a: Seq<usize>, b: Seq<usize>, s: Seq<Seq<usize>>)
    ensures
        prefixed(a, prefixed(b, s)) == prefixed(a + b, s),
{
    assert forall|k: int| 0 <= k < s.len() implies prefixed(a, prefixed(b, s))[k] == prefixed(a + b, s)[k] by {
        assert(a + (b + s[k]) =~= (a + b) + s[k]);
    }
    assert(prefixed(a, prefixed(b, s)) =~= prefixed(a + b, s));
}

impl FileTree {
    /// The flat list holds exactly the shown nodes, in pre-order.
    pub open spec fn wf(&self) -> bool {
        ref_paths(self.flat_list@) == visible(self.root)
    }

    /// A tree rooted at the directory `root_path`, named `root_name`, open
    /// and with its children loaded from `listing`; no tree when the root
    /// is not a directory.
    pub fn new(root_path: String, root_name: String, root_is_dir: bool, listing: &Vec<EntryInfo>) -> (r: Option<Self>)
        ensures
            r is None <==> !root_is_dir,
            r matches Some(t) ==> {
                &&& t.wf()
                &&& t.root.name == root_name
                &&& t.root.path == root_path
                &&& t.root.is_dir
                &&& t.root.expanded
                &&& t.root.depth == 0
                &&& loaded_from(t.root.children@, FileNode {
                    name: root_name,
                    path: root_path,
                    is_dir: true,
                    expanded: true,
                    depth: 0,
                    children: t.root.children,
                }, listing@)
            },
    {
        if !root_is_dir {
            return None;
        }
        let mut root = FileNode {
            name: root_name,
            path: root_path,
            is_dir: true,
            expanded: true,
            depth: 0,
            children: Vec::new(),
        };
        root.load_children(listing);
        let mut tree = FileTree { root, flat_list: Vec::new() };
        tree.rebuild_flat_list();
        Some(tree)
    }

    /// Rebuilds the list of shown nodes from the tree.
    fn rebuild_flat_list(&mut self)
        ensures
            final(self).root == old(self).root,
            final(self).wf(),
    {
        let mut flat_list: Vec<FlatNodeRef> = Vec::new();
        flat_list.push(FlatNodeRef { path: Vec::new() });
        assert(ref_paths(flat_list@) =~= seq![Seq::<usize>::empty()]);
        if self.root.is_dir && self.root.expanded {
            let empty: Vec<usize> = Vec::new();
            Self::collect_visible_children(&mut flat_list, &empty, &self.root);
            let ghost s = visible_upto(self.root, self.root.children.len() as nat);
            assert(prefixed(empty@, s) =~= s) by {
                assert forall|k: int| 0 <= k < s.len() implies prefixed(empty@, s)[k] == s[k] by {
                    assert(empty@ + s[k] =~= s[k]);
                }
            }
        }
        assert(ref_paths(flat_list@) =~= visible(self.root));
        self.flat_list = flat_list;
    }

    /// Appends to `flat_list` the shown nodes under the children of `node`,
    /// whose own path is `parent_path`.
    fn collect_visible_children(flat_list: &mut Vec<FlatNodeRef>, parent_path: &Vec<usize>, node: &FileNode)
        ensures
            ref_paths(final(flat_list)@) == ref_paths(old(flat_list)@) + prefixed(
                parent_path@,
                visible_upto(*node, node.children.len() as nat),
            ),
        decreases node,
    {
        let ghost start = ref_paths(flat_list@);
        let n = node.children.len();
        let mut j: usize = 0;
        assert(prefixed(parent_path@, visible_upto(*node, 0)) =~= Seq::<Seq<usize>>::empty());
        assert(start + Seq::<Seq<usize>>::empty() =~= start);
        while j < n
            invariant
                n == node.children.len(),
                j <= n,
                ref_paths(flat_list@) == start + prefixed(parent_path@, visible_upto(*node, j as nat)),
            decreases n - j,
        {
            let child = &node.children[j];
            let mut child_path = copy_indices(parent_path);
            child_path.push(j);
            let ghost cp = child_path@;
            let ghost before = ref_paths(flat_list@);
            flat_list.push(FlatNodeRef { path: copy_indices(&child_path) });
            assert(ref_paths(flat_list@) =~= before.push(cp));
            let ghost added = if shows_children(*child) {
                prefixed(cp, visible_upto(*child, child.children.len() as nat))
            } else {
                Seq::<Seq<usize>>::empty()
            };
            if child.is_dir && child.expanded {
                Self::collect_visible_children(flat_list, &child_path, child);
            } else {
                assert(ref_paths(flat_list@) =~= before.push(cp) + added);
            }
            proof {
                let vc = visible(*child);
                assert(vc == seq![Seq::<usize>::empty()] + if shows_children(*child) {
                    visible_upto(*child, child.children.len() as nat)
                } else {
                    Seq::empty()
                });
                lemma_prefixed_twice(parent_path@, seq![j], vc);
                assert(cp == parent_path@ + seq![j]);
                lemma_prefixed_add(cp, seq![Seq::<usize>::empty()], vc.drop_first());
                assert(vc =~= seq![Seq::<usize>::empty()] + vc.drop_first());
                assert(prefixed(cp, seq![Seq::<usize>::empty()]) =~= seq![cp]);
                assert(prefixed(cp, vc) =~= seq![cp] + added);
                assert(visible_upto(*node, (j + 1) as nat) == visible_upto(*node, j as nat) + prefixed(seq![j], vc));
                lemma_prefixed_add(parent_path@, visible_upto(*node, j as nat), prefixed(seq![j], vc));
                assert(before.push(cp) + added =~= before + (seq![cp] + added));
            }
            j = j + 1;
        }
    }

    /// The number of shown nodes.
    pub fn visible_count(&self) -> (r: usize)
        requires
            self.wf(),
        ensures
            r == visible(self.root).len(),
    {
        self.flat_list.len()
    }

    /// The node reached from the root by the child indices of `path`.
    fn get_node_by_path(&self, path: &Vec<usize>) -> (r: Option<&FileNode>)
        ensures
            match r {
                Some(n) => node_at(self.root, path@) == Some(*n),
                None => node_at(self.root, path@) is None,
            },
    {
        let mut current = &self.root;
        let n = path.len();
        let mut i: usize = 0;
        assert(path@.skip(0) =~= path@);
        while i < n
            invariant
                n == path.len(),
                i <= n,
                node_at(self.root, path@) == node_at(*current, path@.skip(i as int)),
            decreases n - i,
        {
            let idx = path[i];
            assert(path@.skip(i as int)[0] == idx);
            assert(path@.skip(i as int).drop_first() =~= path@.skip(i + 1));
            if idx < current.children.len() {
                current = &current.children[idx];
            } else {
                return None;
            }
            i = i + 1;
        }
        assert(path@.skip(n as int).len() == 0);
        Some(current)
    }

    /// The shown node at `index`.
    pub fn get_visible_node(&self, index: usize) -> (r: Option<&FileNode>)
        requires
            self.wf(),
        ensures
            index >= visible(self.root).len() ==> r is None,
            index < visible(self.root).len() ==> match r {
                Some(n) => node_at(self.root, visible(self.root)[index as int]) == Some(*n),
                None => node_at(self.root, visible(self.root)[index as int]) is None,
            },
    {
        if index >= self.flat_list.len() {
            return None;
        }
        assert(self.flat_list@[index as int].path@ == visible(self.root)[index as int]);
        self.get_node_by_path(&self.flat_list[index].path)
    }

    /// The path of the directory whose listing `toggle_at(index, ..)` reads:
    /// that of the shown node at `index` when it is a closed directory with
    /// no children loaded.
    pub fn path_to_list(&self, index: usize) -> (r: Option<&str>)
        requires
            self.wf(),
        ensures
            match r {
                Some(p) => index < visible(self.root).len() && exists|n: FileNode| {
                    &&& node_at(self.root, visible(self.root)[index as int]) == Some(n)
                    &&& n.is_dir && !n.expanded && n.children.len() == 0
                    &&& p@ == n.path@
                },
                None => !(index < visible(self.root).len() && exists|n: FileNode| {
                    &&& node_at(self.root, visible(self.root)[index as int]) == Some(n)
                    &&& n.is_dir && !n.expanded && n.children.len() == 0
                }),
            },
    {
        match self.get_visible_node(index) {
            Some(n) => if n.is_dir && !n.expanded && n.children.len() == 0 {
                Some(n.path.as_str())
            } else {
                None
            },
            None => None,
        }
    }

    /// Toggles the shown node at `index`: a directory opens or closes (its
    /// children loaded from `listing`, the entries of its directory, when
    /// it first opens), a file stays as it is; the list of shown nodes is
    /// rebuilt. An index past the list changes nothing.
    pub fn toggle_at(&mut self, index: usize, listing: &Vec<EntryInfo>)
        requires
            old(self).wf(),
        ensures
            final(self).wf(),
            index < visible(old(self).root).len() ==> toggled_at(
                old(self).root,
                visible(old(self).root)[index as int],
                listing@,
                final(self).root,
            ),
            index >= visible(old(self).root).len() ==> final(self).root == old(self).root,
    {
        if index >= self.flat_list.len() {
            return;
        }
        let path = copy_indices(&self.flat_list[index].path);
        assert(path@ == visible(self.root)[index as int]);
        assert(path@.skip(0) =~= path@);
        toggle_node(&mut self.root, &path, 0, listing);
        self.rebuild_flat_list();
    }
}

/// Whether the shown node at `j` is a closed directory whose path is among
/// the open directories `open`.
pub open spec fn awaits_opening(root: FileNode, j: int, open: Set<Seq<char>>) -> bool {
    0 <= j < visible(root).len() && exists|n: FileNode| {
        &&& node_at(root, visible(root)[j]) == Some(n)
        &&& n.is_dir && !n.expanded
        &&& open.contains(n.path@)
    }
}

impl FileTree {
    /// The first shown node at or after `from` that is a closed directory
    /// marked open in `state`: the next one to open when the tree is
    /// brought in line with the directories the user opened.
    pub fn next_to_expand(&self, from: usize, state: &AppState) -> (r: Option<usize>)
        requires
            self.wf(),
        ensures
            match r {
                Some(i) => from <= i && awaits_opening(self.root, i as int, state.model().expanded_dirs) && forall|j: int|
                    from <= j < i ==> !awaits_opening(self.root, j, state.model().expanded_dirs),
                None => forall|j: int|
                    from <= j < visible(self.root).len() ==> !awaits_opening(self.root, j, state.model().expanded_dirs),
            },
    {
        let n = self.flat_list.len();
        let mut i: usize = from;
        while i < n
            invariant
                self.wf(),
                n == visible(self.root).len(),
                from <= i,
                forall|j: int| from <= j < i ==> !awaits_opening(self.root, j, state.model().expanded_dirs),
            decreases n - i,
        {
            match self.get_visible_node(i) {
                Some(node) => {
                    if node.is_dir && !node.expanded && state.is_dir_expanded(node.path.as_str()) {
                        return Some(i);
                    }
                },
                None => {},
            }
            i = i + 1;
        }
        None
    }
}

/// Toggles the node reached from `node` by the indices of `path` from
/// position `i` on.
fn toggle_node(node: &mut FileNode, path: &Vec<usize>, i: usize, listing: &Vec<EntryInfo>)
    requires
        i <= path.len(),
    ensures
        toggled_at(*old(node), path@.skip(i as int), listing@, *final(node)),
    decreases path.len() - i,
{
    if i == path.len() {
        assert(path@.skip(i as int).len() == 0);
        node.toggle_expanded(listing);
        return;
    }
    let j = path[i];
    assert(path@.skip(i as int)[0] == j);
    assert(path@.skip(i as int).drop_first() =~= path@.skip(i + 1));
    if j < node.children.len() {
        let ghost before = node.children@;
        let mut child = node.children.remove(j);
        toggle_node(&mut child, path, i + 1, listing);
        node.children.insert(j, child);
        assert(node.children@ =~= before.update(j as int, child));
    }
}

} // verus!
