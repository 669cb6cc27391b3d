//! The documents kept in the metadata store.

pub mod links;
pub mod metadata;
pub mod owned;
