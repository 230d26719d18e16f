//! Indexing of `.blend` files: a decoder for the file header and its tagged
//! blocks, a builder for the directory tree of the files found, and the
//! bookkeeping of scan jobs that a caller polls for progress.

pub mod endian;
pub mod decoder;
pub mod model;
pub mod names;
pub mod registry;
pub mod scan;
pub mod text;
pub mod tree;
pub mod worker;

pub use decoder::{parse_blend_header, parse_blocks};
pub use model::{BlendInfo, FileMeta, FlatFile, ScanPoll, ScanResult, TreeNode};
pub use registry::{scans_map, ScanError, ScanRegistry};
pub use scan::{ScanState, ScanStatus};
pub use tree::{build_tree_nodes, insert_file, DirNode};
pub use worker::ScanWorker;
