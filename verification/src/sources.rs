//! The sources of documents.

pub mod fs;
pub mod gh;
pub mod static_list;
