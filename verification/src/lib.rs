//! Storage engine of a document library: folders that hold papers, each kept
//! on disk as one compressed file.
//!
//! The library computes; it never touches the disk itself. Every operation is
//! split into the decisions, which live here and carry contracts, and the
//! file-system calls, which the caller performs and reports back as plain
//! values ([`outcome::Listing`], [`outcome::FileRead`], [`outcome::Found`]).

pub mod error;
pub mod commands;
pub mod config;
pub mod disk;
pub mod document;
pub mod file;
pub mod outcome;
