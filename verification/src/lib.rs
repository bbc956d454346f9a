//! Temporary, capability-scoped Kobo book shelves: the verified core.

pub mod text;
pub mod books;
pub mod error;
pub mod weburl;
pub mod config;
pub mod crypto;
pub mod repository;
pub mod shelves;
pub mod observability;
pub mod routes;
pub mod archive;
pub mod epub;
pub mod storage;
pub mod library;
pub mod conversion;
