//! The operations offered to the host application.

pub mod image_api;
