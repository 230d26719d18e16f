//! What one traversal gathers: the flat list of the files it has decoded
//! and the builder of their tree, turned into the result when it ends.

use vstd::prelude::*;
use vstd::string::*;
use crate::model::{
    copy_text, flat_views, FileMeta, FileMetaView, FlatFile, FlatFileView, ScanResult,
    TreeNodeView,
};
use crate::tree::{
    build_tree_nodes, dirs_first_by_name, insert_file, names_of, renders, DirNode, DirView,
    FileEntryView,
};

verus! {

/// The entry of the flat list for a file with the given name, path and
/// metadata.
pub open spec fn flat_of(name: Seq<char>, path: Seq<char>, meta: FileMetaView) -> FlatFileView {
    FlatFileView {
        name,
        path,
        folder: meta.folder,
        size_bytes: meta.size_bytes,
        created: meta.created,
        modified: meta.modified,
        blender_version: meta.blender.version,
        thumbnail: meta.blender.thumbnail,
        render_engine: meta.blender.render_engine,
    }
}

/// The entry of the flat list for a file.
pub fn flat_file(name: &str, path: &str, meta: &FileMeta) -> (flat: FlatFile)
    ensures
        flat@ == flat_of(name@, path@, meta@),
{
    FlatFile {
        name: String::from_str(name),
        path: String::from_str(path),
        folder: meta.folder.clone(),
        size_bytes: meta.size_bytes,
        created: copy_text(&meta.created),
        modified: copy_text(&meta.modified),
        blender_version: copy_text(&meta.blender.version),
        thumbnail: copy_text(&meta.blender.thumbnail),
        render_engine: copy_text(&meta.blender.render_engine),
    }
}

/// The name under which the root of the result tree is shown: the last
/// component of the root's path, or the path as it was given where it has
/// none.
pub fn root_name(own_name: Option<String>, folder_path: &str) -> (name: String)
    ensures
        name@ == match own_name {
            Some(own) => own@,
            None => folder_path@,
        },
{
    match own_name {
        Some(own) => own,
        None => String::from_str(folder_path),
    }
}

/// What a traversal has gathered so far. The tree that it builds is sorted
/// at all times.
#[derive(Debug)]
pub struct ScanWorker {
    files: Vec<FlatFile>,
    builder: DirNode,
}

/// The value of a [`ScanWorker`].
pub struct ScanWorkerView {
    pub files: Seq<FlatFileView>,
    pub tree: DirView,
}

impl View for ScanWorker {
    type V = ScanWorkerView;

    closed spec fn view(&self) -> ScanWorkerView {
        ScanWorkerView { files: flat_views(self.files@), tree: self.builder@ }
    }
}

impl ScanWorkerView {
    /// What is gathered after one more file: it ends the flat list, and
    /// stands in the tree under the directories `parts`.
    pub open spec fn with_file(
        self,
        parts: Seq<Seq<char>>,
        name: Seq<char>,
        path: Seq<char>,
        meta: FileMetaView,
    ) -> ScanWorkerView {
        ScanWorkerView {
            files: self.files.push(flat_of(name, path, meta)),
            tree: self.tree.insert(parts, FileEntryView { name, path, meta }),
        }
    }
}

impl ScanWorker {
    #[verifier::type_invariant]
    spec fn well_formed(self) -> bool {
        self.builder@.sorted()
    }

    /// A traversal that has found nothing yet.
    pub fn new() -> (worker: ScanWorker)
        ensures
            worker@ == (ScanWorkerView { files: Seq::empty(), tree: DirView::empty() }),
            worker@.tree.sorted(),
    {
        let worker = ScanWorker { files: Vec::new(), builder: DirNode::new() };
        assert(worker@.files =~= Seq::empty());
        worker
    }

    /// The number of files taken in so far.
    pub fn found(&self) -> (n: usize)
        ensures
            n == self@.files.len(),
    {
        self.files.len()
    }

    /// Takes in a decoded file: `rel_parts` are the names of the
    /// directories that lead from the root of the scan to the file.
    pub fn add_file(&mut self, rel_parts: &[String], name: &str, path: &str, meta: FileMeta)
        ensures
            final(self)@ == old(self)@.with_file(names_of(rel_parts@), name@, path@, meta@),
            final(self)@.tree.sorted(),
    {
        proof {
            use_type_invariant(&*self);
        }
        let flat = flat_file(name, path, &meta);
        let mut files: Vec<FlatFile> = Vec::new();
        let mut builder = DirNode::new();
        core::mem::swap(&mut self.files, &mut files);
        core::mem::swap(&mut self.builder, &mut builder);
        files.push(flat);
        insert_file(&mut builder, rel_parts, name, path, meta);
        core::mem::swap(&mut self.files, &mut files);
        core::mem::swap(&mut self.builder, &mut builder);
        assert(flat_views(self.files@) =~= flat_views(old(self).files@).push(
            flat_of(name@, path@, meta@),
        ));
    }

    /// The result of the traversal: the tree of what was gathered, shown
    /// under `root_name` with the path `root_path`, and the flat list.
    pub fn finish(self, root_name: &str, root_path: &str) -> (result: ScanResult)
        ensures
            result@.files == self@.files,
            renders(self@.tree, root_name@, root_path@, result@.tree),
            dirs_first_by_name(result@.tree),
    {
        proof {
            use_type_invariant(&self);
        }
        let tree = build_tree_nodes(&self.builder, root_name, root_path);
        ScanResult { tree, files: self.files }
    }
}

/// A traversal that has found nothing gives a tree without children.
pub proof fn lemma_nothing_found(name: Seq<char>, path: Seq<char>, node: TreeNodeView)
    requires
        renders(DirView::empty(), name, path, node),
    ensures
        node.children == Some(Seq::<TreeNodeView>::empty()),
{
    assert(node.children->0 =~= Seq::<TreeNodeView>::empty());
}

} // verus!
