//! The builder of the result tree. Files are put in by the names of the
//! directories that lead to them; the tree that comes out lists, in each
//! directory, the sub-directories by name and then the files in the order
//! in which they were put in.

use vstd::prelude::*;
use vstd::string::*;
use crate::model::{node_views, FileMeta, FileMetaView, TreeNode, TreeNodeView};
use crate::text::{join_path, joined_path};
use crate::names::{lemma_name_order, name_before, name_rank, Rank};

verus! {

/// A file as the builder keeps it.
#[derive(Debug, PartialEq, Eq)]
pub struct FileEntry {
    pub name: String,
    pub path: String,
    pub meta: FileMeta,
}

/// The value of a [`FileEntry`].
pub struct FileEntryView {
    pub name: Seq<char>,
    pub path: Seq<char>,
    pub meta: FileMetaView,
}

impl View for FileEntry {
    type V = FileEntryView;

    open spec fn view(&self) -> FileEntryView {
        FileEntryView { name: self.name@, path: self.path@, meta: self.meta@ }
    }
}

/// A sub-directory of a [`DirNode`], under its name.
#[derive(Debug, PartialEq, Eq)]
pub struct SubDir {
    pub name: String,
    pub node: DirNode,
}

/// A directory of the builder: its sub-directories and its own files.
#[derive(Debug, PartialEq, Eq)]
pub struct DirNode {
    pub dirs: Vec<SubDir>,
    pub files: Vec<FileEntry>,
}

/// The value of a [`DirNode`]: the sub-directories with their names, and
/// the files.
pub struct DirView {
    pub dirs: Seq<(Seq<char>, DirView)>,
    pub files: Seq<FileEntryView>,
}

impl View for DirNode {
    type V = DirView;

    open spec fn view(&self) -> DirView
        decreases self,
    {
        DirView {
            dirs: Seq::new(
                self.dirs@.len(),
                |i: int|
                    if 0 <= i < self.dirs@.len() {
                        (self.dirs@[i].name@, self.dirs@[i].node.view())
                    } else {
                        arbitrary()
                    },
            ),
            files: Seq::new(self.files@.len(), |i: int| self.files@[i]@),
        }
    }
}

/// The first place in `dirs`, from `from` on, whose name does not sort
/// before `name`; the length of `dirs` where there is none.
pub open spec fn slot_from(dirs: Seq<(Seq<char>, DirView)>, name: Seq<char>, from: int) -> int
    decreases dirs.len() - from,
{
    if from < 0 || from >= dirs.len() || !name_before(dirs[from].0, name) {
        from
    } else {
        slot_from(dirs, name, from + 1)
    }
}

impl DirView {
    /// A directory that holds nothing.
    pub open spec fn empty() -> DirView {
        DirView { dirs: Seq::empty(), files: Seq::empty() }
    }

    /// The place of the sub-directory `name`: where it stands, or where it
    /// is to stand.
    pub open spec fn slot(self, name: Seq<char>) -> int {
        slot_from(self.dirs, name, 0)
    }

    /// The directory has a sub-directory `name` at its place.
    pub open spec fn has_dir(self, name: Seq<char>) -> bool {
        self.slot(name) < self.dirs.len() && self.dirs[self.slot(name)].0 == name
    }

    /// The directory after `file` was put in under the directories `parts`,
    /// each of which is made, empty, where it is not there yet.
    pub open spec fn insert(self, parts: Seq<Seq<char>>, file: FileEntryView) -> DirView
        decreases parts.len(),
    {
        if parts.len() == 0 {
            DirView { dirs: self.dirs, files: self.files.push(file) }
        } else {
            let name = parts[0];
            let rest = parts.drop_first();
            let at = self.slot(name);
            if self.has_dir(name) {
                DirView {
                    dirs: self.dirs.update(at, (name, self.dirs[at].1.insert(rest, file))),
                    files: self.files,
                }
            } else {
                DirView {
                    dirs: self.dirs.insert(at, (name, DirView::empty().insert(rest, file))),
                    files: self.files,
                }
            }
        }
    }

    /// The files of the directory that `parts` lead to, in their order; none
    /// where there is no such directory.
    pub open spec fn files_under(self, parts: Seq<Seq<char>>) -> Seq<FileEntryView>
        decreases parts.len(),
    {
        if parts.len() == 0 {
            self.files
        } else if self.has_dir(parts[0]) {
            self.dirs[self.slot(parts[0])].1.files_under(parts.drop_first())
        } else {
            Seq::empty()
        }
    }

    /// In this directory and in all below it, the sub-directories stand in
    /// the order of their names and no name occurs twice.
    pub open spec fn sorted(self) -> bool
        decreases self,
    {
        &&& forall|i: int, j: int|
            0 <= i < j < self.dirs.len() ==> name_before(
                #[trigger] self.dirs[i].0,
                #[trigger] self.dirs[j].0,
            )
        &&& forall|i: int| 0 <= i < self.dirs.len() ==> (#[trigger] self.dirs[i]).1.sorted()
    }
}

/// The names that a list of strings holds, in order.
pub open spec fn names_of(parts: Seq<String>) -> Seq<Seq<char>> {
    Seq::new(parts.len(), |i: int| parts[i]@)
}

impl DirNode {
    /// The value of a directory holds the values of its sub-directories,
    /// each under its name, and of its files, in the order of the vectors.
    pub proof fn lemma_view(self)
        ensures
            self@.dirs.len() == self.dirs@.len(),
            self@.files.len() == self.files@.len(),
            forall|i: int|
                0 <= i < self.dirs@.len() ==> #[trigger] self@.dirs[i] == (
                    self.dirs@[i].name@,
                    self.dirs@[i].node@,
                ),
            forall|i: int| 0 <= i < self.files@.len() ==> #[trigger] self@.files[i] == self.files@[i]@,
    {
        reveal_with_fuel(<DirNode as View>::view, 2);
    }

    /// A directory that holds nothing.
    pub fn new() -> (node: DirNode)
        ensures
            node@ == DirView::empty(),
            node@.sorted(),
    {
        let node = DirNode { dirs: Vec::new(), files: Vec::new() };
        assert(node@.dirs =~= Seq::empty());
        assert(node@.files =~= Seq::empty());
        node
    }

    /// The place of the sub-directory `name`, and whether it is there.
    fn find(&self, name: &str) -> (found: (usize, bool))
        ensures
            found.0 == self@.slot(name@),
            found.0 <= self.dirs@.len(),
            found.1 == self@.has_dir(name@),
    {
        proof {
            self.lemma_view();
        }
        let mut at: usize = 0;
        let mut same = false;
        while at < self.dirs.len()
            invariant_except_break
                !same,
                slot_from(self@.dirs, name@, at as int) == self@.slot(name@),
            invariant
                at <= self.dirs@.len(),
                self@.dirs.len() == self.dirs@.len(),
                forall|i: int|
                    0 <= i < self.dirs@.len() ==> (#[trigger] self@.dirs[i]).0
                        == self.dirs@[i].name@,
            ensures
                at <= self.dirs@.len(),
                at == self@.slot(name@),
                same == self@.has_dir(name@),
            decreases self.dirs@.len() - at,
        {
            let rank = name_rank(self.dirs[at].name.as_str(), name);
            proof {
                assert(self@.dirs[at as int].0 == self.dirs@[at as int].name@);
                lemma_name_order(self.dirs@[at as int].name@, name@, name@);
            }
            match rank {
                Rank::Before => {
                    at += 1;
                },
                Rank::Same => {
                    same = true;
                    break ;
                },
                Rank::After => {
                    break ;
                },
            }
        }
        (at, same)
    }
}

impl Default for DirNode {
    fn default() -> (node: DirNode)
        ensures
            node@ == DirView::empty(),
            node@.sorted(),
    {
        DirNode::new()
    }
}

/// Puts `entry` in under the directories `parts[from..]` of `node`.
fn insert_below(node: &mut DirNode, parts: &[String], from: usize, entry: FileEntry)
    requires
        from <= parts@.len(),
    ensures
        final(node)@ == old(node)@.insert(names_of(parts@).skip(from as int), entry@),
    decreases parts@.len() - from,
{
    let ghost before = node@;
    let ghost names = names_of(parts@).skip(from as int);
    proof {
        node.lemma_view();
    }
    if from == parts.len() {
        node.files.push(entry);
        proof {
            node.lemma_view();
        }
        assert(node@.files =~= before.files.push(entry@));
        assert(node@.dirs =~= before.dirs);
    } else {
        let name = &parts[from];
        assert(names[0] == name@);
        assert(names.drop_first() =~= names_of(parts@).skip(from + 1));
        let (at, found) = node.find(name.as_str());
        if !found {
            node.dirs.insert(at, SubDir { name: name.clone(), node: DirNode::new() });
            proof {
                node.lemma_view();
            }
            assert(node@.dirs =~= before.dirs.insert(at as int, (name@, DirView::empty())));
            assert(node@.files =~= before.files);
        }
        let ghost middle = node@;
        insert_below(&mut node.dirs[at].node, parts, from + 1, entry);
        proof {
            node.lemma_view();
        }
        assert(node@.files =~= before.files);
        assert(node@.dirs =~= middle.dirs.update(
            at as int,
            (name@, middle.dirs[at as int].1.insert(names.drop_first(), entry@)),
        ));
        assert(node@.dirs =~= before.insert(names, entry@).dirs);
    }
}

/// Puts a file into the tree below `root`, under the directories
/// `rel_parts`, which lead from the root to the file. Directories that are
/// not there yet are made, each at the place that its name gives it; the
/// file comes behind the files that its directory already holds.
pub fn insert_file(
    root: &mut DirNode,
    rel_parts: &[String],
    file_name: &str,
    full_path: &str,
    meta: FileMeta,
)
    ensures
        final(root)@ == old(root)@.insert(
            names_of(rel_parts@),
            FileEntryView { name: file_name@, path: full_path@, meta: meta@ },
        ),
        old(root)@.sorted() ==> final(root)@.sorted(),
{
    proof {
        if root@.sorted() {
            lemma_insert_keeps_sorted(
                root@,
                names_of(rel_parts@),
                FileEntryView { name: file_name@, path: full_path@, meta: meta@ },
            );
        }
    }
    let entry = FileEntry {
        name: String::from_str(file_name),
        path: String::from_str(full_path),
        meta,
    };
    assert(names_of(rel_parts@).skip(0) =~= names_of(rel_parts@));
    insert_below(root, rel_parts, 0, entry);
}

/// The place that `slot_from` gives lies between `from` and the end; the
/// names from `from` up to it sort before `name`, and the name at it, if
/// there is one, does not.
pub proof fn lemma_slot_from(dirs: Seq<(Seq<char>, DirView)>, name: Seq<char>, from: int)
    requires
        0 <= from <= dirs.len(),
    ensures
        from <= slot_from(dirs, name, from) <= dirs.len(),
        forall|j: int|
            from <= j < slot_from(dirs, name, from) ==> name_before((#[trigger] dirs[j]).0, name),
        slot_from(dirs, name, from) < dirs.len() ==> !name_before(
            dirs[slot_from(dirs, name, from)].0,
            name,
        ),
    decreases dirs.len() - from,
{
    if from < dirs.len() && name_before(dirs[from].0, name) {
        lemma_slot_from(dirs, name, from + 1);
    }
}

/// In a sorted directory a sub-directory is found at its place if its name
/// occurs at all.
pub proof fn lemma_sorted_lookup(dir: DirView, name: Seq<char>, i: int)
    requires
        dir.sorted(),
        0 <= i < dir.dirs.len(),
        dir.dirs[i].0 == name,
    ensures
        dir.has_dir(name),
        dir.slot(name) == i,
{
    lemma_slot_from(dir.dirs, name, 0);
    let at = dir.slot(name);
    lemma_name_order(name, name, name);
    if at < i {
        lemma_name_order(dir.dirs[at].0, name, name);
        assert(name_before(dir.dirs[at].0, dir.dirs[i].0));
    } else if at > i {
        assert(name_before(dir.dirs[i].0, name));
    }
}

/// Putting a file into a sorted tree leaves the tree sorted.
pub proof fn lemma_insert_keeps_sorted(dir: DirView, parts: Seq<Seq<char>>, file: FileEntryView)
    requires
        dir.sorted(),
    ensures
        dir.insert(parts, file).sorted(),
    decreases parts.len(),
{
    if parts.len() > 0 {
        let name = parts[0];
        let rest = parts.drop_first();
        let at = dir.slot(name);
        let after = dir.insert(parts, file);
        lemma_slot_from(dir.dirs, name, 0);
        if dir.has_dir(name) {
            assert(dir.dirs[at].1.sorted());
            lemma_insert_keeps_sorted(dir.dirs[at].1, rest, file);
            assert forall|i: int, j: int| 0 <= i < j < after.dirs.len() implies name_before(
                #[trigger] after.dirs[i].0,
                #[trigger] after.dirs[j].0,
            ) by {
                assert(after.dirs[i].0 == dir.dirs[i].0);
                assert(after.dirs[j].0 == dir.dirs[j].0);
            }
            assert forall|i: int| 0 <= i < after.dirs.len() implies (#[trigger] after.dirs[i]).1.sorted() by {
                if i != at {
                    assert(after.dirs[i] == dir.dirs[i]);
                }
            }
        } else {
            assert(DirView::empty().sorted());
            lemma_insert_keeps_sorted(DirView::empty(), rest, file);
            assert forall|i: int, j: int| 0 <= i < j < after.dirs.len() implies name_before(
                #[trigger] after.dirs[i].0,
                #[trigger] after.dirs[j].0,
            ) by {
                if j < at {
                    assert(after.dirs[i] == dir.dirs[i]);
                    assert(after.dirs[j] == dir.dirs[j]);
                } else if j == at {
                    assert(after.dirs[i] == dir.dirs[i]);
                } else {
                    assert(after.dirs[j] == dir.dirs[j - 1]);
                    lemma_name_order(name, dir.dirs[at].0, dir.dirs[j - 1].0);
                    if i < at {
                        assert(after.dirs[i] == dir.dirs[i]);
                    } else if i == at {
                        if j - 1 > at {
                            assert(name_before(dir.dirs[at].0, dir.dirs[j - 1].0));
                        }
                    } else {
                        assert(after.dirs[i] == dir.dirs[i - 1]);
                    }
                }
            }
            assert forall|i: int| 0 <= i < after.dirs.len() implies (#[trigger] after.dirs[i]).1.sorted() by {
                if i < at {
                    assert(after.dirs[i] == dir.dirs[i]);
                } else if i > at {
                    assert(after.dirs[i] == dir.dirs[i - 1]);
                }
            }
        }
    }
}

/// The node of the result tree that stands for a file.
pub open spec fn file_node(file: FileEntryView) -> TreeNodeView {
    TreeNodeView {
        node_type: "file"@,
        name: file.name,
        path: file.path,
        meta: Some(file.meta),
        children: None,
    }
}

/// `node` is the directory `dir` as the result tree shows it under the name
/// `name` and with the path `path`: a node of type `dir` without metadata
/// whose children are first the sub-directories of `dir`, each shown in the
/// same way under its own name and with the path that joins `path` and that
/// name, in the order in which `dir` holds them, and then the files of
/// `dir`, in their order.
pub open spec fn renders(
    dir: DirView,
    name: Seq<char>,
    path: Seq<char>,
    node: TreeNodeView,
) -> bool
    decreases dir,
{
    &&& node.node_type == "dir"@
    &&& node.name == name
    &&& node.path == path
    &&& node.meta is None
    &&& node.children is Some
    &&& node.children->0.len() == dir.dirs.len() + dir.files.len()
    &&& forall|i: int|
        0 <= i < dir.dirs.len() ==> renders(
            (#[trigger] dir.dirs[i]).1,
            dir.dirs[i].0,
            joined_path(path, dir.dirs[i].0),
            node.children->0[i],
        )
    &&& forall|j: int|
        0 <= j < dir.files.len() ==> node.children->0[dir.dirs.len() + j] == file_node(
            #[trigger] dir.files[j],
        )
}

/// In `node` and in every directory below it, the directories come before
/// the files and stand in the strict order of their names.
pub open spec fn dirs_first_by_name(node: TreeNodeView) -> bool
    decreases node,
{
    node.children is Some ==> {
        &&& forall|i: int, j: int|
            0 <= i < j < node.children->0.len() && (#[trigger] node.children->0[j]).node_type
                == "dir"@ ==> (#[trigger] node.children->0[i]).node_type == "dir"@ && name_before(
                node.children->0[i].name,
                node.children->0[j].name,
            )
        &&& forall|i: int|
            0 <= i < node.children->0.len() ==> dirs_first_by_name(#[trigger] node.children->0[i])
    }
}

impl TreeNode {
    /// The node that stands for a file.
    pub fn file(entry: &FileEntry) -> (node: TreeNode)
        ensures
            node@ == file_node(entry@),
    {
        let node = TreeNode {
            node_type: String::from_str("file"),
            name: entry.name.clone(),
            path: entry.path.clone(),
            meta: Some(entry.meta.clone()),
            children: None,
        };
        proof {
            node.lemma_view();
        }
        node
    }

    /// The node that stands for a directory with the given children.
    pub fn dir(name: &str, path: &str, children: Vec<TreeNode>) -> (node: TreeNode)
        ensures
            node@ == (TreeNodeView {
                node_type: "dir"@,
                name: name@,
                path: path@,
                meta: None,
                children: Some(node_views(children@)),
            }),
    {
        let node = TreeNode {
            node_type: String::from_str("dir"),
            name: String::from_str(name),
            path: String::from_str(path),
            meta: None,
            children: Some(children),
        };
        proof {
            node.lemma_view();
        }
        node
    }
}

/// The result tree of the directory `dir`, shown under `name` and with the
/// path `path`. Sub-directories come first, in the order in which the
/// builder holds them, which is that of their names; the files follow in
/// the order in which they were put in.
pub fn build_tree_nodes(dir: &DirNode, name: &str, path: &str) -> (node: TreeNode)
    ensures
        renders(dir@, name@, path@, node@),
        dir@.sorted() ==> dirs_first_by_name(node@),
    decreases dir,
{
    proof {
        dir.lemma_view();
    }
    let mut children: Vec<TreeNode> = Vec::new();
    let mut i: usize = 0;
    while i < dir.dirs.len()
        invariant
            i <= dir.dirs@.len(),
            children@.len() == i,
            dir@.dirs.len() == dir.dirs@.len(),
            forall|k: int|
                0 <= k < dir.dirs@.len() ==> #[trigger] dir@.dirs[k] == (
                    dir.dirs@[k].name@,
                    dir.dirs@[k].node@,
                ),
            forall|k: int|
                0 <= k < i ==> renders(
                    (#[trigger] dir@.dirs[k]).1,
                    dir@.dirs[k].0,
                    joined_path(path@, dir@.dirs[k].0),
                    children@[k]@,
                ),
        decreases dir.dirs@.len() - i,
    {
        let sub = &dir.dirs[i];
        let child_path = join_path(path, sub.name.as_str());
        let child = build_tree_nodes(&sub.node, sub.name.as_str(), child_path.as_str());
        children.push(child);
        i += 1;
    }
    let mut j: usize = 0;
    while j < dir.files.len()
        invariant
            j <= dir.files@.len(),
            children@.len() == dir.dirs@.len() + j,
            dir@.dirs.len() == dir.dirs@.len(),
            dir@.files.len() == dir.files@.len(),
            forall|k: int| 0 <= k < dir.files@.len() ==> #[trigger] dir@.files[k] == dir.files@[k]@,
            forall|k: int|
                0 <= k < dir.dirs@.len() ==> renders(
                    (#[trigger] dir@.dirs[k]).1,
                    dir@.dirs[k].0,
                    joined_path(path@, dir@.dirs[k].0),
                    children@[k]@,
                ),
            forall|k: int|
                0 <= k < j ==> children@[dir.dirs@.len() + k]@ == file_node(
                    #[trigger] dir@.files[k],
                ),
        decreases dir.files@.len() - j,
    {
        children.push(TreeNode::file(&dir.files[j]));
        j += 1;
    }
    let node = TreeNode::dir(name, path, children);
    proof {
        if dir@.sorted() {
            lemma_rendering_is_ordered(dir@, name@, path@, node@);
        }
    }
    node
}

/// The place that `slot_from` gives is the only one between `from` and
/// the end before which all names sort before `name` and at which the name,
/// if there is one, does not.
pub proof fn lemma_slot_is(dirs: Seq<(Seq<char>, DirView)>, name: Seq<char>, from: int, at: int)
    requires
        0 <= from <= at <= dirs.len(),
        forall|j: int| from <= j < at ==> name_before((#[trigger] dirs[j]).0, name),
        at < dirs.len() ==> !name_before(dirs[at].0, name),
    ensures
        slot_from(dirs, name, from) == at,
    decreases at - from,
{
    if from < at {
        assert(name_before(dirs[from].0, name));
        lemma_slot_is(dirs, name, from + 1, at);
    }
}

/// After a file was put in under `parts`, the directory that `parts` lead
/// to holds the files that it held before, in their order, and then the
/// new file.
pub proof fn lemma_insert_appends(dir: DirView, parts: Seq<Seq<char>>, file: FileEntryView)
    ensures
        dir.insert(parts, file).files_under(parts) == dir.files_under(parts).push(file),
    decreases parts.len(),
{
    if parts.len() > 0 {
        let name = parts[0];
        let rest = parts.drop_first();
        let at = dir.slot(name);
        let after = dir.insert(parts, file);
        lemma_slot_from(dir.dirs, name, 0);
        lemma_name_order(name, name, name);
        if dir.has_dir(name) {
            lemma_insert_appends(dir.dirs[at].1, rest, file);
            assert forall|j: int| 0 <= j < at implies name_before(
                (#[trigger] after.dirs[j]).0,
                name,
            ) by {
                assert(after.dirs[j] == dir.dirs[j]);
            }
            lemma_slot_is(after.dirs, name, 0, at);
        } else {
            lemma_insert_appends(DirView::empty(), rest, file);
            assert forall|j: int| 0 <= j < at implies name_before(
                (#[trigger] after.dirs[j]).0,
                name,
            ) by {
                assert(after.dirs[j] == dir.dirs[j]);
            }
            lemma_slot_is(after.dirs, name, 0, at);
            lemma_nothing_under_empty(rest);
        }
    }
}

/// A directory that holds nothing has no files under any path.
pub proof fn lemma_nothing_under_empty(parts: Seq<Seq<char>>)
    ensures
        DirView::empty().files_under(parts) == Seq::<FileEntryView>::empty(),
{
}

/// Putting a file in under `parts` leaves the files under every other path
/// as they were.
pub proof fn lemma_insert_keeps_others(
    dir: DirView,
    parts: Seq<Seq<char>>,
    file: FileEntryView,
    other: Seq<Seq<char>>,
)
    requires
        other != parts,
    ensures
        dir.insert(parts, file).files_under(other) == dir.files_under(other),
    decreases parts.len(),
{
    if parts.len() > 0 && other.len() > 0 {
        let name = parts[0];
        let rest = parts.drop_first();
        let wanted = other[0];
        let at = dir.slot(name);
        let was = dir.slot(wanted);
        let after = dir.insert(parts, file);
        lemma_slot_from(dir.dirs, name, 0);
        lemma_slot_from(dir.dirs, wanted, 0);
        lemma_name_order(name, wanted, name);
        lemma_name_order(wanted, name, wanted);
        if wanted == name {
            assert(other.drop_first() != rest) by {
                if other.drop_first() == rest {
                    assert(other =~= seq![wanted] + other.drop_first());
                    assert(parts =~= seq![name] + rest);
                }
            }
            assert forall|j: int| 0 <= j < at implies name_before(
                (#[trigger] after.dirs[j]).0,
                name,
            ) by {
                assert(after.dirs[j] == dir.dirs[j]);
            }
            lemma_slot_is(after.dirs, name, 0, at);
            if dir.has_dir(name) {
                lemma_insert_keeps_others(dir.dirs[at].1, rest, file, other.drop_first());
            } else {
                lemma_insert_keeps_others(DirView::empty(), rest, file, other.drop_first());
                lemma_nothing_under_empty(other.drop_first());
            }
        } else if dir.has_dir(name) {
            assert forall|j: int| 0 <= j < was implies name_before(
                (#[trigger] after.dirs[j]).0,
                wanted,
            ) by {
                assert(after.dirs[j].0 == dir.dirs[j].0);
            }
            if was < dir.dirs.len() {
                assert(after.dirs[was].0 == dir.dirs[was].0);
            }
            lemma_slot_is(after.dirs, wanted, 0, was);
        } else if was < at {
            assert forall|j: int| 0 <= j < was implies name_before(
                (#[trigger] after.dirs[j]).0,
                wanted,
            ) by {
                assert(after.dirs[j] == dir.dirs[j]);
            }
            assert(after.dirs[was] == dir.dirs[was]);
            lemma_slot_is(after.dirs, wanted, 0, was);
        } else if name_before(name, wanted) {
            assert forall|j: int| 0 <= j < was + 1 implies name_before(
                (#[trigger] after.dirs[j]).0,
                wanted,
            ) by {
                if j < at {
                    assert(after.dirs[j] == dir.dirs[j]);
                } else if j > at {
                    assert(after.dirs[j] == dir.dirs[j - 1]);
                }
            }
            if was < dir.dirs.len() {
                assert(after.dirs[was + 1] == dir.dirs[was]);
            }
            lemma_slot_is(after.dirs, wanted, 0, was + 1);
        } else {
            // `wanted` sorts before `name`: it was not there, and is not there now
            if was > at {
                assert(name_before(dir.dirs[at].0, wanted));
                lemma_name_order(dir.dirs[at].0, wanted, name);
            }
            assert forall|j: int| 0 <= j < at implies name_before(
                (#[trigger] after.dirs[j]).0,
                wanted,
            ) by {
                assert(after.dirs[j] == dir.dirs[j]);
            }
            lemma_slot_is(after.dirs, wanted, 0, at);
            if at < dir.dirs.len() && dir.dirs[at].0 == wanted {
                assert(!name_before(wanted, name));
            }
        }
    } else if parts.len() == 0 && other.len() == 0 {
        assert(other =~= parts);
    }
}

/// The result tree of a sorted directory shows the sub-directories first,
/// in the order of their names, and the files behind them, in the order in
/// which the directory holds them.
pub proof fn lemma_rendering_order(
    dir: DirView,
    name: Seq<char>,
    path: Seq<char>,
    node: TreeNodeView,
)
    requires
        dir.sorted(),
        renders(dir, name, path, node),
    ensures
        node.children is Some,
        node.children->0.len() == dir.dirs.len() + dir.files.len(),
        forall|i: int|
            0 <= i < dir.dirs.len() ==> (#[trigger] node.children->0[i]).node_type == "dir"@
                && node.children->0[i].name == dir.dirs[i].0,
        forall|i: int, j: int|
            0 <= i < j < dir.dirs.len() ==> name_before(
                (#[trigger] node.children->0[i]).name,
                (#[trigger] node.children->0[j]).name,
            ),
        forall|k: int|
            dir.dirs.len() <= k < dir.dirs.len() + dir.files.len() ==> (
            #[trigger] node.children->0[k]) == file_node(dir.files[k - dir.dirs.len()]),
{
    let children = node.children->0;
    assert forall|i: int| 0 <= i < dir.dirs.len() implies (#[trigger] children[i]).node_type
        == "dir"@ && children[i].name == dir.dirs[i].0 by {
        assert(renders(
            dir.dirs[i].1,
            dir.dirs[i].0,
            joined_path(path, dir.dirs[i].0),
            children[i],
        ));
    }
    assert forall|i: int, j: int| 0 <= i < j < dir.dirs.len() implies name_before(
        (#[trigger] children[i]).name,
        (#[trigger] children[j]).name,
    ) by {
        assert(name_before(dir.dirs[i].0, dir.dirs[j].0));
    }
    assert forall|k: int|
        dir.dirs.len() <= k < dir.dirs.len() + dir.files.len() implies (#[trigger] children[k])
        == file_node(dir.files[k - dir.dirs.len()]) by {
        let j = k - dir.dirs.len();
        assert(children[dir.dirs.len() + j] == file_node(dir.files[j]));
    }
}

/// The result tree of a sorted directory has, at every level, the
/// directories before the files and in the strict order of their names.
pub proof fn lemma_rendering_is_ordered(
    dir: DirView,
    name: Seq<char>,
    path: Seq<char>,
    node: TreeNodeView,
)
    requires
        dir.sorted(),
        renders(dir, name, path, node),
    ensures
        dirs_first_by_name(node),
    decreases dir,
{
    let children = node.children->0;
    reveal_strlit("dir");
    reveal_strlit("file");
    assert("dir"@.len() == 3 && "file"@.len() == 4);
    lemma_rendering_order(dir, name, path, node);
    assert forall|i: int, j: int|
        0 <= i < j < children.len() && (#[trigger] children[j]).node_type == "dir"@ implies (
    #[trigger] children[i]).node_type == "dir"@ && name_before(
        children[i].name,
        children[j].name,
    ) by {
        if j >= dir.dirs.len() {
            assert(children[j] == file_node(dir.files[j - dir.dirs.len()]));
        }
    }
    assert forall|i: int| 0 <= i < children.len() implies dirs_first_by_name(
        #[trigger] children[i],
    ) by {
        if i < dir.dirs.len() {
            assert(dir.dirs[i].1.sorted());
            assert(renders(
                dir.dirs[i].1,
                dir.dirs[i].0,
                joined_path(path, dir.dirs[i].0),
                children[i],
            ));
            lemma_rendering_is_ordered(
                dir.dirs[i].1,
                dir.dirs[i].0,
                joined_path(path, dir.dirs[i].0),
                children[i],
            );
        } else {
            assert(children[i] == file_node(dir.files[i - dir.dirs.len()]));
        }
    }
}

} // verus!
