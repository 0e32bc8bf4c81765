//! A lazily expanded tree of objective files.
//!
//! The library decides what a frame shows: which directory entries become
//! folders or documents, when a folder's children are listed, what each
//! objective row reads and what a click on it reports. Listing directories,
//! reading and decoding files and drawing belong to the caller.
pub mod entry;
pub mod location;
pub mod walk;
