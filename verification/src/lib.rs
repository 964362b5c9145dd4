//! A file-finding library: a builder of search configurations whose
//! traversal engine walks a directory tree breadth first, bounded by a
//! depth, and keeps the files that pass a chain of predicates.
//!
//! The builder and the predicate chain never touch the filesystem; the
//! traversal engine decides every step of the walk while its caller does
//! the filesystem work and reports what it saw.

pub mod finder;
pub mod paths;
pub mod pattern;
pub mod predicate;
pub mod traversal;

pub use finder::{FindError, Finder};
pub use predicate::{Classify, Predicate, PredicateModel};
pub use traversal::{EntryInfo, Traversal};
