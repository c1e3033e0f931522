//! A vault for small, file-shaped secrets that are encrypted with OpenPGP and
//! shared among a controlled set of recipients.
//!
//! The crate holds the vault engine's rules: the partition model, the routing
//! of resources, the recipients list and the resource specs. Files, the
//! keychain and the editor are reached by the program around it.

pub mod crypt;
pub mod dispatch;
pub mod edit;
pub mod error;
pub mod init;
pub mod keys;
pub mod load;
pub mod lookup;
pub mod merge;
pub mod partitions;
pub mod paths;
pub mod recipients;
pub mod resource;
pub mod spec;
pub mod substitute;
pub mod text;
pub mod types;
pub mod vault;
