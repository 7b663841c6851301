//! The core of a recipe manager: recipe records, a store of them by
//! identifier with a bounded cache of their images, relevance ranking for
//! search, and the layout of a recipe library on disk.
//!
//! The store does no input or output of its own. Where an operation reaches
//! the disk, the store says which file is to be read, written or deleted, and
//! takes in what was read; the caller performs the file operation. What the
//! store holds after each operation is stated over its view, a map of recipes
//! and a sequence of cached images.
//!
//! Numbers with a fraction are carried as bit patterns: the library stores and
//! compares them, the caller computes with them.

pub mod cache;
pub mod db;
pub mod edit;
pub mod handle;
pub mod home;
pub mod id;
pub mod image;
pub mod index;
pub mod laws;
pub mod layout;
pub mod measure;
pub mod recipe;
pub mod release;
pub mod scalar;
pub mod screen;
pub mod search;
pub mod text;
