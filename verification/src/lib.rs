//! Verified core of the Zero Trust seat cleaner: which users lose their seat,
//! in what order, and how the answers of the CloudFlare API are judged.

pub mod api;
pub mod cli;
pub mod clock;
pub mod config;
pub mod error;
pub mod text;
pub mod user;
pub mod selection;
pub mod revocation;
