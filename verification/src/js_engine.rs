//! Descriptor scripts of content sources: where they are found and what
//! they say about themselves.

pub mod module_loader;
