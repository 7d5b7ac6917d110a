//! An embryonic relational-database storage engine built around a verified
//! slotted-page format.
//!
//! The heart of the crate is [`page::Page`]: a fixed-size page that packs
//! variable-length tuples behind a slot directory, tracks free space, and
//! exposes snapshot visibility of tuple versions.  [`io_manager::IOManager`]
//! maps table names to page-addressed files; the byte-level effect of each
//! file operation is stated and verified here over an in-memory image of the
//! file's contents, while the actual file handling lives outside the
//! verified core.

pub mod ast;
pub mod io_manager;
pub mod page;
pub mod sql_token_types;
pub mod tokens;
