//! Ephemeral, encrypted object sharing: envelope encryption under a registry
//! of master keys, unguessable links, the read-and-consume lifecycle of a
//! stored object, and the shared lock under which expired objects are swept.

pub mod auth;
pub mod cleanup;
pub mod clock;
pub mod config;
pub mod crypto;
pub mod data;
pub mod database;
pub mod entropy;
pub mod error;
pub mod handlers;
pub mod helpers;
pub mod keys;
pub mod laws;
pub mod links;
pub mod secret;
pub mod state;
pub mod upload;
pub mod users;
pub mod views;
