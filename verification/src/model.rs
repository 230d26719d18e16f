//! The records that a scan hands to its caller, each with the mathematical
//! value that the contracts of this crate speak of.

use vstd::prelude::*;

verus! {

/// The characters of an optional string.
pub open spec fn text_of(s: Option<String>) -> Option<Seq<char>> {
    match s {
        Some(t) => Some(t@),
        None => None,
    }
}

/// A copy of an optional string.
pub fn copy_text(s: &Option<String>) -> (r: Option<String>)
    ensures
        text_of(r) == text_of(*s),
{
    match s {
        Some(t) => Some(t.clone()),
        None => None,
    }
}

/// What was read from the header and the blocks of one file.
#[derive(Debug, PartialEq, Eq)]
pub struct BlendInfo {
    pub version: Option<String>,
    pub raw: Option<String>,
    pub pointer_size: Option<u8>,
    pub endianness: Option<String>,
    pub thumbnail: Option<String>,
    pub thumb_width: Option<i32>,
    pub thumb_height: Option<i32>,
    pub render_engine: Option<String>,
    pub error: Option<String>,
}

/// The value of a [`BlendInfo`].
pub struct BlendInfoView {
    pub version: Option<Seq<char>>,
    pub raw: Option<Seq<char>>,
    pub pointer_size: Option<u8>,
    pub endianness: Option<Seq<char>>,
    pub thumbnail: Option<Seq<char>>,
    pub thumb_width: Option<i32>,
    pub thumb_height: Option<i32>,
    pub render_engine: Option<Seq<char>>,
    pub error: Option<Seq<char>>,
}

impl View for BlendInfo {
    type V = BlendInfoView;

    open spec fn view(&self) -> BlendInfoView {
        BlendInfoView {
            version: text_of(self.version),
            raw: text_of(self.raw),
            pointer_size: self.pointer_size,
            endianness: text_of(self.endianness),
            thumbnail: text_of(self.thumbnail),
            thumb_width: self.thumb_width,
            thumb_height: self.thumb_height,
            render_engine: text_of(self.render_engine),
            error: text_of(self.error),
        }
    }
}

impl Clone for BlendInfo {
    fn clone(&self) -> (r: Self)
        ensures
            r@ == self@,
    {
        BlendInfo {
            version: copy_text(&self.version),
            raw: copy_text(&self.raw),
            pointer_size: self.pointer_size,
            endianness: copy_text(&self.endianness),
            thumbnail: copy_text(&self.thumbnail),
            thumb_width: self.thumb_width,
            thumb_height: self.thumb_height,
            render_engine: copy_text(&self.render_engine),
            error: copy_text(&self.error),
        }
    }
}

/// What the file system and the decoder know of one file.
#[derive(Debug, PartialEq, Eq)]
pub struct FileMeta {
    pub size_bytes: u64,
    pub created: Option<String>,
    pub modified: Option<String>,
    pub folder: String,
    pub blender: BlendInfo,
}

/// The value of a [`FileMeta`].
pub struct FileMetaView {
    pub size_bytes: u64,
    pub created: Option<Seq<char>>,
    pub modified: Option<Seq<char>>,
    pub folder: Seq<char>,
    pub blender: BlendInfoView,
}

impl View for FileMeta {
    type V = FileMetaView;

    open spec fn view(&self) -> FileMetaView {
        FileMetaView {
            size_bytes: self.size_bytes,
            created: text_of(self.created),
            modified: text_of(self.modified),
            folder: self.folder@,
            blender: self.blender@,
        }
    }
}

impl Clone for FileMeta {
    fn clone(&self) -> (r: Self)
        ensures
            r@ == self@,
    {
        FileMeta {
            size_bytes: self.size_bytes,
            created: copy_text(&self.created),
            modified: copy_text(&self.modified),
            folder: self.folder.clone(),
            blender: self.blender.clone(),
        }
    }
}

/// A node of the result tree: a directory with its children, or a file with
/// its metadata.
#[derive(Debug, PartialEq, Eq)]
pub struct TreeNode {
    pub node_type: String,
    pub name: String,
    pub path: String,
    pub meta: Option<FileMeta>,
    pub children: Option<Vec<TreeNode>>,
}

/// The value of a [`TreeNode`].
pub struct TreeNodeView {
    pub node_type: Seq<char>,
    pub name: Seq<char>,
    pub path: Seq<char>,
    pub meta: Option<FileMetaView>,
    pub children: Option<Seq<TreeNodeView>>,
}

impl View for TreeNode {
    type V = TreeNodeView;

    open spec fn view(&self) -> TreeNodeView
        decreases self, 1int,
    {
        TreeNodeView {
            node_type: self.node_type@,
            name: self.name@,
            path: self.path@,
            meta: match self.meta {
                Some(m) => Some(m@),
                None => None,
            },
            children: if self.children is Some {
                Some(self.child_views())
            } else {
                None
            },
        }
    }
}

/// The values of the nodes of a list, in order.
pub open spec fn node_views(nodes: Seq<TreeNode>) -> Seq<TreeNodeView> {
    Seq::new(nodes.len(), |i: int| nodes[i]@)
}

impl TreeNode {
    /// The values of the children of a node, in order; none where it has no
    /// list of children.
    pub open spec fn child_views(self) -> Seq<TreeNodeView>
        decreases self, 0int,
    {
        if self.children is Some {
            Seq::new(
                self.children->0@.len(),
                |i: int|
                    if 0 <= i < self.children->0@.len() {
                        self.children->0@[i].view()
                    } else {
                        arbitrary()
                    },
            )
        } else {
            Seq::empty()
        }
    }

    /// The value of a node holds the values of its children, in the order
    /// of the vector.
    pub proof fn lemma_view(self)
        ensures
            self.children is None ==> self@.children is None,
            self.children is Some ==> self@.children == Some(node_views(self.children->0@)),
    {
        reveal_with_fuel(TreeNode::child_views, 3);
        reveal_with_fuel(<TreeNode as View>::view, 3);
        if self.children is Some {
            assert(self.child_views() =~= node_views(self.children->0@));
            assert(self@.children == Some(self.child_views()));
        }
    }

    /// Copies of the nodes of `nodes`, in the same order.
    pub fn copy_all(nodes: &Vec<TreeNode>) -> (r: Vec<TreeNode>)
        ensures
            r@.len() == nodes@.len(),
            forall|j: int| 0 <= j < nodes@.len() ==> r@[j]@ == nodes@[j]@,
        decreases nodes,
    {
        let mut out: Vec<TreeNode> = Vec::new();
        let mut i: usize = 0;
        while i < nodes.len()
            invariant
                i <= nodes@.len(),
                out@.len() == i,
                forall|j: int| 0 <= j < i ==> out@[j]@ == nodes@[j]@,
            decreases nodes@.len() - i,
        {
            let copy = nodes[i].clone();
            out.push(copy);
            i += 1;
        }
        out
    }
}

impl Clone for TreeNode {
    fn clone(&self) -> (r: Self)
        ensures
            r@ == self@,
        decreases self,
    {
        let meta = match &self.meta {
            Some(m) => Some(m.clone()),
            None => None,
        };
        let children = match &self.children {
            Some(v) => {
                let copies = TreeNode::copy_all(v);
                assert(node_views(copies@) =~= node_views(v@));
                Some(copies)
            },
            None => None,
        };
        let r = TreeNode {
            node_type: self.node_type.clone(),
            name: self.name.clone(),
            path: self.path.clone(),
            meta,
            children,
        };
        proof {
            r.lemma_view();
            self.lemma_view();
        }
        r
    }
}

/// One file of the flat list that a caller searches.
#[derive(Debug, PartialEq, Eq)]
pub struct FlatFile {
    pub name: String,
    pub path: String,
    pub folder: String,
    pub size_bytes: u64,
    pub created: Option<String>,
    pub modified: Option<String>,
    pub blender_version: Option<String>,
    pub thumbnail: Option<String>,
    pub render_engine: Option<String>,
}

/// The value of a [`FlatFile`].
pub struct FlatFileView {
    pub name: Seq<char>,
    pub path: Seq<char>,
    pub folder: Seq<char>,
    pub size_bytes: u64,
    pub created: Option<Seq<char>>,
    pub modified: Option<Seq<char>>,
    pub blender_version: Option<Seq<char>>,
    pub thumbnail: Option<Seq<char>>,
    pub render_engine: Option<Seq<char>>,
}

impl View for FlatFile {
    type V = FlatFileView;

    open spec fn view(&self) -> FlatFileView {
        FlatFileView {
            name: self.name@,
            path: self.path@,
            folder: self.folder@,
            size_bytes: self.size_bytes,
            created: text_of(self.created),
            modified: text_of(self.modified),
            blender_version: text_of(self.blender_version),
            thumbnail: text_of(self.thumbnail),
            render_engine: text_of(self.render_engine),
        }
    }
}

impl Clone for FlatFile {
    fn clone(&self) -> (r: Self)
        ensures
            r@ == self@,
    {
        FlatFile {
            name: self.name.clone(),
            path: self.path.clone(),
            folder: self.folder.clone(),
            size_bytes: self.size_bytes,
            created: copy_text(&self.created),
            modified: copy_text(&self.modified),
            blender_version: copy_text(&self.blender_version),
            thumbnail: copy_text(&self.thumbnail),
            render_engine: copy_text(&self.render_engine),
        }
    }
}

/// The values of the files of a flat list, in order.
pub open spec fn flat_views(files: Seq<FlatFile>) -> Seq<FlatFileView> {
    Seq::new(files.len(), |i: int| files[i]@)
}

/// What a finished scan found: the directory tree and the same files as a
/// flat list, in the order in which they were met.
#[derive(Debug, PartialEq, Eq)]
pub struct ScanResult {
    pub tree: TreeNode,
    pub files: Vec<FlatFile>,
}

/// The value of a [`ScanResult`].
pub struct ScanResultView {
    pub tree: TreeNodeView,
    pub files: Seq<FlatFileView>,
}

impl View for ScanResult {
    type V = ScanResultView;

    open spec fn view(&self) -> ScanResultView {
        ScanResultView { tree: self.tree@, files: flat_views(self.files@) }
    }
}

impl Clone for ScanResult {
    fn clone(&self) -> (r: Self)
        ensures
            r@ == self@,
    {
        let mut files: Vec<FlatFile> = Vec::new();
        let mut i: usize = 0;
        while i < self.files.len()
            invariant
                i <= self.files@.len(),
                files@.len() == i,
                forall|j: int| 0 <= j < i ==> files@[j]@ == self.files@[j]@,
            decreases self.files@.len() - i,
        {
            files.push(self.files[i].clone());
            i += 1;
        }
        assert(flat_views(files@) =~= flat_views(self.files@));
        ScanResult { tree: self.tree.clone(), files }
    }
}

/// The result of a scan, where there is one.
pub open spec fn result_of(r: Option<ScanResult>) -> Option<ScanResultView> {
    match r {
        Some(x) => Some(x@),
        None => None,
    }
}

/// A snapshot of a scan job, as a poll returns it.
#[derive(Debug, PartialEq, Eq)]
pub struct ScanPoll {
    pub scan_id: u64,
    pub status: String,
    pub scanned_entries: u64,
    pub found_blends: u64,
    pub current_path: Option<String>,
    pub error: Option<String>,
    pub result: Option<ScanResult>,
}

/// The value of a [`ScanPoll`].
pub struct ScanPollView {
    pub scan_id: u64,
    pub status: Seq<char>,
    pub scanned_entries: u64,
    pub found_blends: u64,
    pub current_path: Option<Seq<char>>,
    pub error: Option<Seq<char>>,
    pub result: Option<ScanResultView>,
}

impl View for ScanPoll {
    type V = ScanPollView;

    open spec fn view(&self) -> ScanPollView {
        ScanPollView {
            scan_id: self.scan_id,
            status: self.status@,
            scanned_entries: self.scanned_entries,
            found_blends: self.found_blends,
            current_path: text_of(self.current_path),
            error: text_of(self.error),
            result: result_of(self.result),
        }
    }
}

impl Clone for ScanPoll {
    fn clone(&self) -> (r: Self)
        ensures
            r@ == self@,
    {
        let result = match &self.result {
            Some(x) => Some(x.clone()),
            None => None,
        };
        ScanPoll {
            scan_id: self.scan_id,
            status: self.status.clone(),
            scanned_entries: self.scanned_entries,
            found_blends: self.found_blends,
            current_path: copy_text(&self.current_path),
            error: copy_text(&self.error),
            result,
        }
    }
}

} // verus!
