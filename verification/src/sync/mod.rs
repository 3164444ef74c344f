//! Rules of the remote storage synchronisation service.

pub mod auth;
pub mod backend;
pub mod codec;
pub mod credentials;
pub mod drive;
pub mod error;
pub mod routes;
