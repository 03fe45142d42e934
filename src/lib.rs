//! A daemon library that watches a mailbox, keeps the attachments of approved
//! senders and disposes of each message according to what was kept.
//!
//! The decisions live here, each with its contract: which messages a search
//! asks for, which pushed events deserve a reconciliation, how a message is
//! classified, which of its parts are written under which name, and whether it
//! then goes to Trash or back to unread. Sessions, files and threads belong to
//! the program around it.

pub mod config;
pub mod errors;
pub mod idle;
pub mod mail;
pub mod metadata;
pub mod reconcile;
pub mod search;
pub mod text;

pub use config::AppConfig;
pub use errors::ImapAttachmentDaemonError;
pub use metadata::MessageMetadata;
