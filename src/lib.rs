//! A filesystem scanner: locates huge files, and searches text files for a
//! literal substring with per-line reporting and highlighting.
//!
//! The directory walk, the filters and the line matching are decided here;
//! the program around the library performs the filesystem reads and the
//! printing that those decisions call for.

pub mod counter;
pub mod huge_scan;
pub mod options;
pub mod size;
pub mod text;
pub mod text_scan;
pub mod walk_count;
pub mod walker;

pub use counter::CountCell;
pub use huge_scan::{huge_file_report, HugeScan};
pub use options::{parse_target, size_bytes, Options, OptionsError, Target};
pub use text::{contains_str, match_lines, split_lines, split_text, MatchLine};
pub use text_scan::{parse_file_exts, DirVerdict, ScanError, TextScan};
pub use walker::{DirEntry, EntryKind, WalkError, WalkStep, Walker, MAX_DEPTH};
