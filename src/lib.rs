//! A small interactive command interpreter: line tokenizing, builtin
//! dispatch and search-path resolution of external programs, all as
//! verified functions on plain values. Process plumbing lives outside.
pub mod dispatch;
pub mod exit_status;
pub mod registry;
pub mod resolve;
pub mod text;
